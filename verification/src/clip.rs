//! Animation clips: immutable bundles of curves keyed by target identifier,
//! with a derived total duration, and the store of shared clip assets that
//! players resolve their handles against.

use vstd::prelude::*;

use crate::MAX_TIME;
use crate::curve::VariableCurve;
use crate::ids::AnimationTargetId;

verus! {

/// A handle naming a clip asset held in a [`ClipAssets`] store.
#[derive(Clone, Copy, Debug, PartialEq, Eq, Structural, Hash)]
pub struct ClipHandle {
    /// The asset key.
    pub id: u64,
}

impl Default for ClipHandle {
    /// The default handle, naming asset key zero.
    fn default() -> (r: Self)
        ensures
            r.id == 0,
    {
        ClipHandle { id: 0 }
    }
}

/// The last keyframe timestamp of a curve, or 0 if the curve is empty: the
/// time span the curve covers.
pub open spec fn curve_last_time(c: VariableCurve) -> int {
    if c.keyframe_timestamps@.len() == 0 {
        0
    } else {
        c.keyframe_timestamps@.last() as int
    }
}

/// Key `id` occurs among the entries.
pub open spec fn has_key(ev: Seq<(u128, Seq<VariableCurve>)>, id: u128) -> bool {
    exists|j: int| 0 <= j < ev.len() && ev[j].0 == id
}

/// The index of key `id` among the entries (unique when keys are distinct).
pub open spec fn key_index(ev: Seq<(u128, Seq<VariableCurve>)>, id: u128) -> int {
    choose|j: int| 0 <= j < ev.len() && ev[j].0 == id
}

/// Entry keys are pairwise distinct.
pub open spec fn keys_distinct(ev: Seq<(u128, Seq<VariableCurve>)>) -> bool {
    forall|i: int, j: int| 0 <= i < j < ev.len() ==> ev[i].0 != ev[j].0
}

/// A mapping from [`AnimationTargetId`] (e.g. bone in a skinned mesh) to the
/// animation curves that drive it.
#[derive(Clone, Debug)]
pub struct AnimationCurves {
    entries: Vec<(AnimationTargetId, Vec<VariableCurve>)>,
}

impl AnimationCurves {
    /// The entries as (identifier, curve list) pairs, in insertion order.
    pub closed spec fn entries_view(&self) -> Seq<(u128, Seq<VariableCurve>)> {
        self.entries@.map_values(|p: (AnimationTargetId, Vec<VariableCurve>)| (p.0.id, p.1@))
    }

    /// Entry keys are pairwise distinct.
    pub open spec fn wf(&self) -> bool {
        keys_distinct(self.entries_view())
    }

    /// An empty mapping.
    pub fn new() -> (r: Self)
        ensures
            r.entries_view() == Seq::<(u128, Seq<VariableCurve>)>::empty(),
            r.wf(),
    {
        let r = AnimationCurves { entries: Vec::new() };
        proof {
            assert(r.entries_view() =~= Seq::<(u128, Seq<VariableCurve>)>::empty());
        }
        r
    }

    /// Number of animated targets.
    pub fn targets_len(&self) -> (n: usize)
        ensures
            n == self.entries_view().len(),
    {
        self.entries.len()
    }

    /// The curves for one target, or `None` if no curve drives it.
    pub fn get(&self, target_id: AnimationTargetId) -> (r: Option<&Vec<VariableCurve>>)
        requires
            self.wf(),
        ensures
            match r {
                Some(curves) => has_key(self.entries_view(), target_id.id) && curves@
                    == self.entries_view()[key_index(self.entries_view(), target_id.id)].1,
                None => !has_key(self.entries_view(), target_id.id),
            },
    {
        let ghost ev = self.entries_view();
        let mut i: usize = 0;
        while i < self.entries.len()
            invariant
                i <= self.entries.len(),
                ev == self.entries_view(),
                ev.len() == self.entries@.len(),
                keys_distinct(ev),
                forall|k: int| 0 <= k < i ==> ev[k].0 != target_id.id,
            decreases self.entries.len() - i,
        {
            if self.entries[i].0.id == target_id.id {
                proof {
                    assert(ev[i as int].0 == target_id.id);
                    assert(key_index(ev, target_id.id) == i) by {
                        let j = key_index(ev, target_id.id);
                        assert(0 <= j < ev.len() && ev[j].0 == target_id.id);
                    }
                }
                return Some(&self.entries[i].1);
            }
            proof {
                assert(ev[i as int].0 != target_id.id);
            }
            i = i + 1;
        }
        None
    }

    /// Appends `curve` to the target's curve list, creating the list if the
    /// target was not yet animated.
    pub fn add(&mut self, target_id: AnimationTargetId, curve: VariableCurve)
        requires
            old(self).wf(),
        ensures
            final(self).wf(),
            ({
                let ev = old(self).entries_view();
                if has_key(ev, target_id.id) {
                    let j = key_index(ev, target_id.id);
                    final(self).entries_view() == ev.update(j, (target_id.id, ev[j].1.push(curve)))
                } else {
                    final(self).entries_view() == ev.push((target_id.id, seq![curve]))
                }
            }),
    {
        let ghost ev = old(self).entries_view();
        let mut i: usize = 0;
        while i < self.entries.len()
            invariant
                i <= self.entries.len(),
                *self == *old(self),
                ev == self.entries_view(),
                ev.len() == self.entries@.len(),
                keys_distinct(ev),
                forall|k: int| 0 <= k < i ==> ev[k].0 != target_id.id,
            decreases self.entries.len() - i,
        {
            if self.entries[i].0.id == target_id.id {
                proof {
                    assert(ev[i as int].0 == target_id.id);
                    assert(key_index(ev, target_id.id) == i) by {
                        let j = key_index(ev, target_id.id);
                        assert(0 <= j < ev.len() && ev[j].0 == target_id.id);
                    }
                }
                let mut pair = self.entries.remove(i);
                pair.1.push(curve);
                self.entries.insert(i, pair);
                proof {
                    assert(self.entries_view() =~~= ev.update(
                        i as int,
                        (target_id.id, ev[i as int].1.push(curve)),
                    ));
                }
                return ;
            }
            proof {
                assert(ev[i as int].0 != target_id.id);
            }
            i = i + 1;
        }
        let mut curves: Vec<VariableCurve> = Vec::new();
        curves.push(curve);
        self.entries.push((target_id, curves));
        proof {
            assert(self.entries_view() =~~= ev.push((target_id.id, seq![curve])));
        }
    }
}

/// A list of curves and the target identifiers to which they apply.
///
/// Because clips refer to targets by identifier, they can drive any target
/// with that identifier.
#[derive(Clone, Debug)]
pub struct AnimationClip {
    curves: AnimationCurves,
    duration: i64,
}

impl AnimationClip {
    /// The entries of the clip's curve store.
    pub closed spec fn entries_view(&self) -> Seq<(u128, Seq<VariableCurve>)> {
        self.curves.entries_view()
    }

    /// Duration of the clip, in ticks.
    pub closed spec fn spec_duration(&self) -> i64 {
        self.duration
    }

    /// Well-formed clip: distinct target keys, every stored curve well
    /// formed, and the duration at least the time span of every stored
    /// curve and within the engine's time range.
    pub open spec fn wf(&self) -> bool {
        let ev = self.entries_view();
        &&& keys_distinct(ev)
        &&& 0 <= self.spec_duration() <= MAX_TIME
        &&& forall|j: int, c: int|
            0 <= j < ev.len() && 0 <= c < ev[j].1.len() ==> {
                &&& (#[trigger] ev[j].1[c]).wf()
                &&& curve_last_time(ev[j].1[c]) <= self.spec_duration()
            }
    }

    /// An empty clip with duration zero.
    pub fn new() -> (r: Self)
        ensures
            r.entries_view() == Seq::<(u128, Seq<VariableCurve>)>::empty(),
            r.spec_duration() == 0,
            r.wf(),
    {
        AnimationClip { curves: AnimationCurves::new(), duration: 0 }
    }

    /// The curves of the clip, indexed by target identifier.
    pub fn curves(&self) -> (r: &AnimationCurves)
        ensures
            r.entries_view() == self.entries_view(),
    {
        &self.curves
    }

    /// Gets the curves for a single animation target.
    ///
    /// Returns `None` if this clip doesn't animate the target.
    pub fn curves_for_target(&self, target_id: AnimationTargetId) -> (r: Option<
        &Vec<VariableCurve>,
    >)
        requires
            self.wf(),
        ensures
            match r {
                Some(curves) => has_key(self.entries_view(), target_id.id) && curves@
                    == self.entries_view()[key_index(self.entries_view(), target_id.id)].1,
                None => !has_key(self.entries_view(), target_id.id),
            },
    {
        self.curves.get(target_id)
    }

    /// Duration of the clip, in ticks.
    pub fn duration(&self) -> (d: i64)
        ensures
            d == self.spec_duration(),
    {
        self.duration
    }

    /// Adds a curve to the animation target named by the identifier.
    ///
    /// If the curve extends beyond the current duration of this clip, this
    /// method lengthens the clip to include the entire time span that the
    /// curve covers; the duration never decreases, and stays at least the
    /// time span of every curve ever added.
    pub fn add_curve_to_target(&mut self, target_id: AnimationTargetId, curve: VariableCurve)
        requires
            old(self).wf(),
            curve.wf(),
        ensures
            final(self).wf(),
            final(self).spec_duration() as int == if curve_last_time(curve) > old(self).spec_duration() as int {
                curve_last_time(curve)
            } else {
                old(self).spec_duration() as int
            },
            old(self).spec_duration() <= final(self).spec_duration(),
            curve_last_time(curve) <= final(self).spec_duration(),
            ({
                let ev = old(self).entries_view();
                if has_key(ev, target_id.id) {
                    let j = key_index(ev, target_id.id);
                    final(self).entries_view() == ev.update(j, (target_id.id, ev[j].1.push(curve)))
                } else {
                    final(self).entries_view() == ev.push((target_id.id, seq![curve]))
                }
            }),
    {
        let n = curve.keyframe_timestamps.len();
        let last: i64 = if n == 0 {
            0
        } else {
            curve.keyframe_timestamps[n - 1]
        };
        if last > self.duration {
            self.duration = last;
        }
        self.curves.add(target_id, curve);
    }
}

impl Default for AnimationClip {
    /// An empty clip with duration zero.
    fn default() -> (r: Self)
        ensures
            r.entries_view() == Seq::<(u128, Seq<VariableCurve>)>::empty(),
            r.spec_duration() == 0,
            r.wf(),
    {
        AnimationClip::new()
    }
}

/// A well-formed clip's duration covers the time span (last timestamp) of
/// every curve it holds; together with `add_curve_to_target`'s contract
/// (which keeps clips well formed and never decreases the duration), the
/// duration stays at least the largest timestamp across all added curves.
pub proof fn lemma_duration_covers_all_curves(clip: AnimationClip, j: int, c: int)
    requires
        clip.wf(),
        0 <= j < clip.entries_view().len(),
        0 <= c < clip.entries_view()[j].1.len(),
    ensures
        curve_last_time(clip.entries_view()[j].1[c]) <= clip.spec_duration(),
{
}

/// The store of shared clip assets: a keyed lookup from handle to clip.
/// Lookup may find nothing (a clip not loaded yet); callers treat that as
/// "skip, contribute nothing".
pub struct ClipAssets {
    entries: Vec<(u64, AnimationClip)>,
}

impl ClipAssets {
    /// The stored clip for a key, if any.
    pub closed spec fn spec_get(&self, id: u64) -> Option<AnimationClip> {
        lookup(self.entries@, id)
    }

    /// Distinct keys, and every stored clip well formed.
    pub closed spec fn wf(&self) -> bool {
        &&& forall|i: int, j: int|
            0 <= i < j < self.entries@.len() ==> self.entries@[i].0 != self.entries@[j].0
        &&& forall|j: int| 0 <= j < self.entries@.len() ==> (#[trigger] self.entries@[j].1).wf()
    }

    /// Every clip found by lookup in a well-formed store is well formed.
    pub proof fn lemma_get_wf(&self, id: u64)
        requires
            self.wf(),
            self.spec_get(id) is Some,
        ensures
            self.spec_get(id)->Some_0.wf(),
    {
    }

    /// An empty store.
    pub fn new() -> (r: Self)
        ensures
            r.wf(),
            forall|id: u64| r.spec_get(id) is None,
    {
        ClipAssets { entries: Vec::new() }
    }

    /// Stores `clip` under the handle, replacing any clip already there.
    pub fn insert(&mut self, handle: ClipHandle, clip: AnimationClip)
        requires
            old(self).wf(),
            clip.wf(),
        ensures
            final(self).wf(),
            final(self).spec_get(handle.id) == Some(clip),
            forall|id: u64| id != handle.id ==> final(self).spec_get(id) == old(self).spec_get(id),
    {
        let ghost pre = *old(self);
        let mut i: usize = 0;
        while i < self.entries.len()
            invariant
                i <= self.entries.len(),
                *self == pre,
                pre == *old(self),
                pre.wf(),
                clip.wf(),
                forall|k: int| 0 <= k < i ==> self.entries@[k].0 != handle.id,
            decreases self.entries.len() - i,
        {
            if self.entries[i].0 == handle.id {
                let _ = self.entries.remove(i);
                self.entries.insert(i, (handle.id, clip));
                proof {
                    assert(self.entries@ =~= pre.entries@.update(i as int, (handle.id, clip)));
                    assert forall|p: int| 0 <= p < self.entries@.len() implies (
                    #[trigger] self.entries@[p]).0 == pre.entries@[p].0 by {}
                    assert forall|p: int|
                        0 <= p < self.entries@.len() implies (
                    #[trigger] self.entries@[p].1).wf() by {
                        if p != i {
                            assert(self.entries@[p] == pre.entries@[p]);
                            assert(pre.entries@[p].1.wf());
                        }
                    }
                    assert(self.wf());
                    assert(self.spec_get(handle.id) == Some(clip)) by {
                        assert(self.entries@[i as int].0 == handle.id);
                        let j = choose|j: int|
                            0 <= j < self.entries@.len() && self.entries@[j].0 == handle.id;
                        if j != i {
                            assert(self.entries@[j].0 == self.entries@[i as int].0);
                            assert(false);
                        }
                    }
                    assert forall|id: u64| id != handle.id implies self.spec_get(id)
                        == pre.spec_get(id) by {
                        lemma_same_lookup(pre.entries@, self.entries@, id);
                    }
                }
                return ;
            }
            i = i + 1;
        }
        self.entries.push((handle.id, clip));
        proof {
            assert(self.entries@ =~= pre.entries@.push((handle.id, clip)));
            assert(self.wf());
            assert(self.spec_get(handle.id) == Some(clip)) by {
                let n = pre.entries@.len() as int;
                assert(self.entries@[n].0 == handle.id);
                let j = choose|j: int|
                    0 <= j < self.entries@.len() && self.entries@[j].0 == handle.id;
                if j < n {
                    assert(pre.entries@[j].0 == handle.id);
                    assert(false);
                }
            }
            assert forall|id: u64| id != handle.id implies self.spec_get(id) == pre.spec_get(
                id,
            ) by {
                lemma_same_lookup(pre.entries@, self.entries@, id);
            }
        }
    }

    /// Looks up the clip for a handle; `None` when the asset is absent.
    pub fn get(&self, handle: &ClipHandle) -> (r: Option<&AnimationClip>)
        requires
            self.wf(),
        ensures
            match r {
                Some(clip) => self.spec_get(handle.id) == Some(*clip),
                None => self.spec_get(handle.id) is None,
            },
    {
        let mut i: usize = 0;
        while i < self.entries.len()
            invariant
                i <= self.entries.len(),
                self.wf(),
                forall|k: int| 0 <= k < i ==> self.entries@[k].0 != handle.id,
            decreases self.entries.len() - i,
        {
            if self.entries[i].0 == handle.id {
                proof {
                    let j = choose|j: int|
                        0 <= j < self.entries@.len() && self.entries@[j].0 == handle.id;
                    if j != i {
                        assert(self.entries@[j].0 == handle.id);
                        assert(self.entries@[i as int].0 == handle.id);
                        assert(false);
                    }
                }
                return Some(&self.entries[i].1);
            }
            i = i + 1;
        }
        None
    }
}

/// Two entry lists with the second one's keys distinct, agreeing on which
/// indices hold a key and on the entries at those indices, give the same
/// lookup result for that key.
proof fn lemma_same_lookup(a: Seq<(u64, AnimationClip)>, b: Seq<(u64, AnimationClip)>, id: u64)
    requires
        forall|j: int| 0 <= j < a.len() && a[j].0 == id ==> j < b.len() && b[j] == a[j],
        forall|j: int| 0 <= j < b.len() && b[j].0 == id ==> j < a.len() && a[j] == b[j],
        forall|i: int, j: int| 0 <= i < j < b.len() ==> b[i].0 != b[j].0,
    ensures
        lookup(a, id) == lookup(b, id),
{
    if exists|j: int| 0 <= j < a.len() && a[j].0 == id {
        let ja = choose|j: int| 0 <= j < a.len() && a[j].0 == id;
        assert(b[ja].0 == id);
        let jb = choose|j: int| 0 <= j < b.len() && b[j].0 == id;
        assert(a[jb] == b[jb]);
        if ja < jb {
            assert(b[ja].0 != b[jb].0);
        }
        if jb < ja {
            assert(b[jb].0 != b[ja].0);
        }
        assert(ja == jb);
    } else {
        if exists|j: int| 0 <= j < b.len() && b[j].0 == id {
            let jb = choose|j: int| 0 <= j < b.len() && b[j].0 == id;
            assert(a[jb].0 == id);
        }
    }
}

/// The lookup a [`ClipAssets`] store performs over its entry list.
pub open spec fn lookup(s: Seq<(u64, AnimationClip)>, id: u64) -> Option<AnimationClip> {
    if exists|j: int| 0 <= j < s.len() && s[j].0 == id {
        let j = choose|j: int| 0 <= j < s.len() && s[j].0 == id;
        Some(s[j].1)
    } else {
        None
    }
}

} // verus!
