//! The keyframe animation sampler: a pure function from an immutable track
//! and a query time to an interpolated pose fragment.
//!
//! A track is a strictly time-ordered sequence of keyframes, all of one
//! pose kind, together with a positive period. Sampling wraps the query
//! time into the period, picks the keys that bracket it, and interpolates
//! — linearly for translations and scales, across the shorter rotational
//! arc for rotations. An empty track yields no sample; a query past the
//! last key holds the last key's pose until the period wraps.

use vstd::prelude::*;
use vstd::arithmetic::div_mod::{lemma_mod_bound, lemma_mod_multiples_vanish};
use crate::math::{
    lemma_shortest_arc, quat_wf, rotate_interp, spec_quat_dot, spec_quat_lerp, spec_quat_neg,
    spec_quat_normalize, spec_rotate_interp, spec_vec3_lerp, vec3_lerp, Quat, Vec3,
};

verus! {

/// One pose fragment of a node's transform.
#[derive(Clone, Copy, PartialEq, Eq, Structural, Debug)]
pub enum Transformation {
    Scale(Vec3),
    Translate(Vec3),
    Rotate(Quat),
}

/// The kind of a pose fragment. A valid track is homogeneous: all of its
/// keys share one kind.
#[derive(Clone, Copy, PartialEq, Eq, Structural, Debug)]
pub enum TransformationKind {
    Scale,
    Translate,
    Rotate,
}

/// The kind a pose fragment belongs to.
pub open spec fn kind_of(t: Transformation) -> TransformationKind {
    match t {
        Transformation::Scale(_) => TransformationKind::Scale,
        Transformation::Translate(_) => TransformationKind::Translate,
        Transformation::Rotate(_) => TransformationKind::Rotate,
    }
}

/// Rotation keys must be exactly negatable; vector keys carry no constraint.
pub open spec fn value_wf(t: Transformation) -> bool {
    match t {
        Transformation::Rotate(q) => quat_wf(q),
        _ => true,
    }
}

/// Interpolation between two pose fragments of one kind by `num / den`.
/// Mixed kinds are an invariant violation and never reached from a valid
/// track; the fallback arm is arbitrary.
pub open spec fn spec_interp(
    a: Transformation,
    b: Transformation,
    num: int,
    den: int,
) -> Transformation
    recommends
        kind_of(a) == kind_of(b),
{
    match (a, b) {
        (Transformation::Translate(v0), Transformation::Translate(v1)) => Transformation::Translate(
            spec_vec3_lerp(v0, v1, num, den),
        ),
        (Transformation::Scale(v0), Transformation::Scale(v1)) => Transformation::Scale(
            spec_vec3_lerp(v0, v1, num, den),
        ),
        (Transformation::Rotate(q0), Transformation::Rotate(q1)) => Transformation::Rotate(
            spec_rotate_interp(q0, q1, num, den),
        ),
        _ => a,
    }
}

/// Interpolation between two pose fragments, exact per [`spec_interp`].
/// The mismatched-kind branch is proved unreachable, the executable form
/// of the debug-time invariant assertion.
pub fn interp(a: Transformation, b: Transformation, num: u32, den: u32) -> (r: Transformation)
    requires
        kind_of(a) == kind_of(b),
        value_wf(a),
        value_wf(b),
        0 < den,
        num <= den,
    ensures
        r == spec_interp(a, b, num as int, den as int),
        value_wf(r),
{
    match (a, b) {
        (Transformation::Translate(v0), Transformation::Translate(v1)) => Transformation::Translate(
            vec3_lerp(v0, v1, num, den),
        ),
        (Transformation::Scale(v0), Transformation::Scale(v1)) => Transformation::Scale(
            vec3_lerp(v0, v1, num, den),
        ),
        (Transformation::Rotate(q0), Transformation::Rotate(q1)) => Transformation::Rotate(
            rotate_interp(&q0, &q1, num, den),
        ),
        _ => vstd::pervasive::unreached(),
    }
}

/// One keyframe: a sample time in ticks, and the pose fragment at it.
#[derive(Clone, Copy, PartialEq, Eq, Structural, Debug)]
pub struct Keyframe {
    pub time: u32,
    pub value: Transformation,
}

/// Key times are strictly increasing.
pub open spec fn sorted(keys: Seq<Keyframe>) -> bool {
    forall|i: int, j: int|
        0 <= i < j < keys.len() ==> #[trigger] keys[i].time < #[trigger] keys[j].time
}

/// All keys hold pose fragments of one kind.
pub open spec fn homogeneous(keys: Seq<Keyframe>) -> bool {
    forall|i: int, j: int|
        0 <= i < keys.len() && 0 <= j < keys.len() ==> #[trigger] kind_of(keys[i].value)
            == #[trigger] kind_of(keys[j].value)
}

/// The smallest index at or after `i` whose key time is at least `lt`, or
/// the length when every remaining key lies before `lt`.
pub open spec fn next_index_from(keys: Seq<Keyframe>, lt: int, i: int) -> int
    decreases keys.len() - i,
{
    if i < 0 || i >= keys.len() {
        keys.len() as int
    } else if keys[i].time >= lt {
        i
    } else {
        next_index_from(keys, lt, i + 1)
    }
}

/// The smallest index whose key time is at least `lt`: the `next` key of
/// the sampler, the least key at or after the local time.
pub open spec fn next_index(keys: Seq<Keyframe>, lt: int) -> int {
    next_index_from(keys, lt, 0)
}

/// Any index with the two defining properties is the next index.
pub proof fn lemma_next_index_char(keys: Seq<Keyframe>, lt: int, s: int, i: int)
    requires
        0 <= s <= i <= keys.len(),
        forall|j: int| s <= j < i ==> #[trigger] keys[j].time < lt,
        i < keys.len() ==> keys[i].time >= lt,
    ensures
        next_index_from(keys, lt, s) == i,
    decreases i - s,
{
    if s < i {
        assert(keys[s].time < lt);
        lemma_next_index_char(keys, lt, s + 1, i);
    }
}

/// A keyframe track for one scene node: a positive period in ticks and a
/// strictly time-ordered, homogeneous sequence of keyframes. Immutable
/// after construction; sampling never mutates it.
#[derive(Debug)]
pub struct Animation {
    /// Identifier of the scene node this track animates.
    pub target: usize,
    /// The track's period in ticks; always positive in a valid track.
    pub duration: u32,
    /// The keyframes, strictly ordered by time.
    pub keys: Vec<Keyframe>,
}

impl Animation {
    /// The construction invariant every valid track satisfies.
    pub open spec fn wf(&self) -> bool {
        &&& self.duration > 0
        &&& sorted(self.keys@)
        &&& homogeneous(self.keys@)
        &&& forall|i: int| 0 <= i < self.keys@.len() ==> #[trigger] value_wf(self.keys@[i].value)
    }

    /// The query time wrapped into the track's period.
    pub open spec fn spec_local_time(&self, t: int) -> int {
        t % (self.duration as int)
    }

    /// The `prev` key index for local time `lt`: the greatest key at or
    /// before `lt`, or the first key as the wrap-to-start fallback when
    /// `lt` precedes every key.
    pub open spec fn spec_prev_index(&self, lt: int) -> int {
        let n = next_index(self.keys@, lt);
        if n < self.keys@.len() && self.keys@[n].time == lt {
            n
        } else if n == 0 {
            0
        } else {
            n - 1
        }
    }

    /// What sampling returns: no sample on an empty track; the last key's
    /// value held when the local time passes every key (the hold-last
    /// policy, chosen explicitly — the last pose stays in effect until
    /// the period wraps); the bracketing key's value verbatim when `prev`
    /// and `next` are one entry; their interpolation by the elapsed
    /// fraction of the bracket otherwise.
    pub open spec fn spec_sample(&self, t: int) -> Option<Transformation>
        recommends
            self.wf(),
    {
        let lt = self.spec_local_time(t);
        let n = next_index(self.keys@, lt);
        if self.keys@.len() == 0 {
            None
        } else if n == self.keys@.len() {
            Some(self.keys@.last().value)
        } else {
            let p = self.spec_prev_index(lt);
            if p == n {
                Some(self.keys@[n].value)
            } else {
                Some(
                    spec_interp(
                        self.keys@[p].value,
                        self.keys@[n].value,
                        lt - self.keys@[p].time,
                        self.keys@[n].time - self.keys@[p].time,
                    ),
                )
            }
        }
    }

    /// Sample the track at query time `time`, exact per [`Animation::spec_sample`].
    pub fn get(&self, time: u64) -> (r: Option<Transformation>)
        requires
            self.wf(),
        ensures
            r == self.spec_sample(time as int),
    {
        let dur: u64 = self.duration as u64;
        let local: u64 = time % dur;
        let lt: u32 = local as u32;
        let len: usize = self.keys.len();
        let mut i: usize = 0;
        while i < len && self.keys[i].time < lt
            invariant
                0 <= i <= len,
                len == self.keys@.len(),
                lt < self.duration,
                forall|j: int| 0 <= j < i ==> #[trigger] self.keys@[j].time < lt,
            decreases len - i,
        {
            i += 1;
        }
        proof {
            lemma_next_index_char(self.keys@, lt as int, 0, i as int);
        }
        if i == len {
            if len == 0 {
                return None;
            }
            let last: Keyframe = self.keys[len - 1];
            return Some(last.value);
        }
        let nk: Keyframe = self.keys[i];
        if nk.time == lt || i == 0 {
            Some(nk.value)
        } else {
            let pk: Keyframe = self.keys[i - 1];
            let num: u32 = lt - pk.time;
            let den: u32 = nk.time - pk.time;
            Some(interp(pk.value, nk.value, num, den))
        }
    }
}

/// The keys of a track read as a map from time to pose fragment; a later
/// entry at an already-seen time overwrites the earlier one, exactly as
/// collecting paired samples into an ordered map does.
pub open spec fn as_map(keys: Seq<Keyframe>) -> Map<int, Transformation>
    decreases keys.len(),
{
    if keys.len() == 0 {
        Map::empty()
    } else {
        as_map(keys.drop_last()).insert(keys.last().time as int, keys.last().value)
    }
}

/// For a sorted track the key map is exactly the keyframes, entry by entry.
pub proof fn lemma_as_map_sorted(keys: Seq<Keyframe>)
    requires
        sorted(keys),
    ensures
        forall|i: int|
            0 <= i < keys.len() ==> as_map(keys).contains_key(#[trigger] keys[i].time as int)
                && as_map(keys)[keys[i].time as int] == keys[i].value,
        forall|t: int|
            #[trigger] as_map(keys).contains_key(t) ==> exists|i: int|
                0 <= i < keys.len() && #[trigger] keys[i].time as int == t,
    decreases keys.len(),
{
    if keys.len() > 0 {
        let prefix = keys.drop_last();
        assert(forall|i: int| 0 <= i < prefix.len() ==> prefix[i] == keys[i]);
        lemma_as_map_sorted(prefix);
        let last = keys.last();
        assert forall|i: int| 0 <= i < keys.len() implies as_map(keys).contains_key(
            #[trigger] keys[i].time as int,
        ) && as_map(keys)[keys[i].time as int] == keys[i].value by {
            if i < keys.len() - 1 {
                assert(prefix[i] == keys[i]);
                assert(keys[i].time < last.time);
            }
        }
        assert forall|t: int| #[trigger] as_map(keys).contains_key(t) implies exists|i: int|
            0 <= i < keys.len() && #[trigger] keys[i].time as int == t by {
            if t == last.time as int {
                assert(keys[keys.len() - 1].time as int == t);
            } else {
                assert(as_map(prefix).contains_key(t));
                let i = choose|i: int| 0 <= i < prefix.len() && #[trigger] prefix[i].time as int
                    == t;
                assert(keys[i].time as int == t);
            }
        }
    }
}

/// In a sorted track, times identify their index.
pub proof fn lemma_sorted_times_unique(keys: Seq<Keyframe>, i: int, j: int)
    requires
        sorted(keys),
        0 <= i < keys.len(),
        0 <= j < keys.len(),
        keys[i].time == keys[j].time,
    ensures
        i == j,
{
    if i < j {
        assert(keys[i].time < keys[j].time);
    }
    if j < i {
        assert(keys[j].time < keys[i].time);
    }
}

/// Insert one keyframe into a sorted track, replacing the key at an equal
/// time, exactly as an ordered map's insert does.
#[verifier::rlimit(60)]
fn insert_key(keys: &mut Vec<Keyframe>, k: Keyframe)
    requires
        sorted(old(keys)@),
    ensures
        sorted(final(keys)@),
        as_map(final(keys)@) == as_map(old(keys)@).insert(k.time as int, k.value),
        forall|i: int|
            0 <= i < final(keys)@.len() ==> final(keys)@[i] == k || old(keys)@.contains(
                #[trigger] final(keys)@[i],
            ),
{
    let ghost oldk = keys@;
    let mut pos: usize = 0;
    while pos < keys.len() && keys[pos].time < k.time
        invariant
            keys@ == oldk,
            sorted(keys@),
            0 <= pos <= keys@.len(),
            forall|j: int| 0 <= j < pos ==> #[trigger] keys@[j].time < k.time,
        decreases keys@.len() - pos,
    {
        pos += 1;
    }
    let replace: bool = pos < keys.len() && keys[pos].time == k.time;
    if replace {
        keys.remove(pos);
    }
    keys.insert(pos, k);
    proof {
        let newk = keys@;
        let p = pos as int;
        if replace {
            assert(newk =~= oldk.update(p, k));
        }
        assert forall|i: int, j: int| 0 <= i < j < newk.len() implies #[trigger] newk[i].time
            < #[trigger] newk[j].time by {
            if replace {
                assert(newk[i] == if i == p { k } else { oldk[i] });
                assert(newk[j] == if j == p { k } else { oldk[j] });
                assert(oldk[p].time == k.time);
            } else {
                if i < p && j == p {
                    assert(oldk[i].time < k.time);
                }
                if i == p && j > p {
                    assert(oldk[p].time >= k.time && oldk[p].time != k.time);
                    assert(oldk[j - 1].time >= oldk[p].time);
                }
                if i < p && j > p {
                    assert(oldk[i].time < k.time);
                    assert(oldk[p].time > k.time);
                    assert(oldk[j - 1].time >= oldk[p].time);
                }
            }
        }
        lemma_as_map_sorted(oldk);
        lemma_as_map_sorted(newk);
        let lhs = as_map(newk);
        let rhs = as_map(oldk).insert(k.time as int, k.value);
        assert forall|t: int| lhs.contains_key(t) implies rhs.contains_key(t) && lhs[t]
            == rhs[t] by {
            let i = choose|i: int| 0 <= i < newk.len() && #[trigger] newk[i].time as int == t;
            if t == k.time as int {
                lemma_sorted_times_unique(newk, i, p);
                assert(lhs[t] == k.value);
            } else {
                assert(i != p);
                let oi: int = if replace || i < p { i } else { i - 1 };
                assert(newk[i] == oldk[oi]);
                assert(as_map(oldk)[t] == oldk[oi].value);
            }
        }
        assert forall|t: int| rhs.contains_key(t) implies lhs.contains_key(t) by {
            if t == k.time as int {
                assert(newk[p].time as int == t);
            } else {
                assert(as_map(oldk).contains_key(t));
                let i = choose|i: int| 0 <= i < oldk.len() && #[trigger] oldk[i].time as int == t;
                let ni: int = if replace || i < p { i } else { i + 1 };
                assert(newk[ni] == oldk[i]);
                assert(newk[ni].time as int == t);
            }
        }
        assert(lhs =~= rhs);
    }
}

impl Animation {
    /// Build a track from one channel's paired time/value samples, with
    /// the overwrite-on-equal-time resolution of an ordered map: the
    /// resulting key map is exactly the samples', later samples winning.
    /// A channel of no recognised pose kind hands in no samples and so
    /// yields the empty track.
    pub fn new(target: usize, duration: u32, samples: Vec<Keyframe>) -> (r: Animation)
        requires
            duration > 0,
            homogeneous(samples@),
            forall|i: int| 0 <= i < samples@.len() ==> #[trigger] value_wf(samples@[i].value),
        ensures
            r.wf(),
            r.target == target,
            r.duration == duration,
            as_map(r.keys@) == as_map(samples@),
    {
        let mut keys: Vec<Keyframe> = Vec::new();
        let mut i: usize = 0;
        proof {
            assert(samples@.take(0) =~= Seq::<Keyframe>::empty());
        }
        while i < samples.len()
            invariant
                0 <= i <= samples@.len(),
                sorted(keys@),
                homogeneous(samples@),
                forall|m: int| 0 <= m < samples@.len() ==> #[trigger] value_wf(samples@[m].value),
                as_map(keys@) == as_map(samples@.take(i as int)),
                forall|j: int|
                    0 <= j < keys@.len() ==> samples@.contains(#[trigger] keys@[j]),
            decreases samples@.len() - i,
        {
            let k = samples[i];
            proof {
                assert(samples@.contains(k)) by {
                    assert(samples@[i as int] == k);
                }
            }
            insert_key(&mut keys, k);
            proof {
                assert(samples@.take(i as int + 1).drop_last() =~= samples@.take(i as int));
                assert(samples@.take(i as int + 1).last() == k);
            }
            i += 1;
        }
        proof {
            assert(samples@.take(samples@.len() as int) =~= samples@);
            assert forall|a: int, b: int|
                0 <= a < keys@.len() && 0 <= b < keys@.len() implies #[trigger] kind_of(
                keys@[a].value,
            ) == #[trigger] kind_of(keys@[b].value) by {
                let ma = choose|m: int| 0 <= m < samples@.len() && samples@[m] == keys@[a];
                let mb = choose|m: int| 0 <= m < samples@.len() && samples@[m] == keys@[b];
                assert(kind_of(samples@[ma].value) == kind_of(samples@[mb].value));
            }
            assert forall|j: int| 0 <= j < keys@.len() implies #[trigger] value_wf(
                keys@[j].value,
            ) by {
                let m = choose|m: int| 0 <= m < samples@.len() && samples@[m] == keys@[j];
                assert(value_wf(samples@[m].value));
            }
        }
        Animation { target, duration, keys }
    }
}

/// Periodicity: sampling a track of duration `d` is invariant under
/// shifting the query time by any whole number of periods.
pub proof fn lemma_periodicity(a: &Animation, t: int, k: int)
    requires
        a.wf(),
    ensures
        a.spec_sample(t + k * (a.duration as int)) == a.spec_sample(t),
{
    let d = a.duration as int;
    lemma_mod_multiples_vanish(k, t, d);
    assert(d * k == k * d) by (nonlinear_arith);
    assert((t + k * d) % d == t % d);
}

/// Exact-key fidelity: a query whose local time lands exactly on a key
/// returns that key's value verbatim — no interpolation is applied.
pub proof fn lemma_exact_key(a: &Animation, t: int, i: int)
    requires
        a.wf(),
        0 <= i < a.keys@.len(),
        t % (a.duration as int) == a.keys@[i].time as int,
    ensures
        a.spec_sample(t) == Some(a.keys@[i].value),
{
    let lt = a.spec_local_time(t);
    assert forall|j: int| 0 <= j < i implies #[trigger] a.keys@[j].time < lt by {
        assert(a.keys@[j].time < a.keys@[i].time);
    }
    lemma_next_index_char(a.keys@, lt, 0, i);
}

/// Exactly when a sample is owed: sampling succeeds if and only if the
/// track is non-empty. Degenerate tracks are valid, never an error: the
/// empty track signals "no sample", and every other query is answered.
pub proof fn lemma_sample_some_iff(a: &Animation, t: int)
    requires
        a.wf(),
    ensures
        a.spec_sample(t) is Some <==> a.keys@.len() > 0,
{
}

/// The hold-last policy, explicitly: when the wrapped query time passes
/// the last key of a non-empty track, that key's pose stays in effect
/// until the period wraps.
pub proof fn lemma_hold_last(a: &Animation, t: int)
    requires
        a.wf(),
        a.keys@.len() > 0,
        a.spec_local_time(t) > a.keys@.last().time as int,
    ensures
        a.spec_sample(t) == Some(a.keys@.last().value),
{
    let lt = a.spec_local_time(t);
    let len = a.keys@.len() as int;
    assert forall|j: int| 0 <= j < len implies #[trigger] a.keys@[j].time < lt by {
        if j < len - 1 {
            assert(a.keys@[j].time < a.keys@[len - 1].time);
        }
    }
    lemma_next_index_char(a.keys@, lt, 0, len);
}

/// A single-key track returns that key's value for every query time,
/// never "no sample": before the key it is the wrap-to-start fallback, at
/// the key the verbatim value, past it the held last pose.
pub proof fn lemma_single_key_constant(a: &Animation, t: int)
    requires
        a.wf(),
        a.keys@.len() == 1,
    ensures
        a.spec_sample(t) == Some(a.keys@[0].value),
{
    let d = a.duration as int;
    let lt = a.spec_local_time(t);
    lemma_mod_bound(t, d);
    if a.keys@[0].time >= lt {
        lemma_next_index_char(a.keys@, lt, 0, 0);
    } else {
        lemma_next_index_char(a.keys@, lt, 0, 1);
    }
}

/// An empty track returns "no sample" for every query time.
pub proof fn lemma_empty_track_no_sample(a: &Animation, t: int)
    requires
        a.wf(),
        a.keys@.len() == 0,
    ensures
        a.spec_sample(t) is None,
{
    let lt = a.spec_local_time(t);
    lemma_next_index_char(a.keys@, lt, 0, 0);
}

/// Quaternion shortest arc, at the sampler level: when a rotation track's
/// two keys have a negative dot product and the local time falls strictly
/// between them, the sample equals the renormalized interpolation towards
/// the *negated* far key, whose dot product with the near key is positive
/// — the arc traveled stays within a half turn.
pub proof fn lemma_sample_shortest_arc(a: &Animation, t: int, q0: Quat, q1: Quat)
    requires
        a.wf(),
        a.keys@.len() == 2,
        a.keys@[0].value == Transformation::Rotate(q0),
        a.keys@[1].value == Transformation::Rotate(q1),
        spec_quat_dot(q0, q1) < 0,
        (a.keys@[0].time as int) < a.spec_local_time(t) < a.keys@[1].time as int,
    ensures
        a.spec_sample(t) == Some(
            Transformation::Rotate(
                spec_quat_normalize(
                    spec_quat_lerp(
                        q0,
                        spec_quat_neg(q1),
                        a.spec_local_time(t) - a.keys@[0].time,
                        a.keys@[1].time - a.keys@[0].time,
                    ),
                ),
            ),
        ),
        spec_quat_dot(q0, spec_quat_neg(q1)) > 0,
{
    let lt = a.spec_local_time(t);
    lemma_next_index_char(a.keys@, lt, 0, 1);
    assert(value_wf(a.keys@[1].value));
    lemma_shortest_arc(q0, q1, lt - a.keys@[0].time, a.keys@[1].time - a.keys@[0].time);
}

} // verus!
