//! Per-pixel semantics of the geometry and light passes.
//!
//! The geometry pass resolves overlapping fragments with a less-than
//! depth test and depth write, so the nearest opaque fragment wins no
//! matter the submission order. The light pass blends each light's
//! radiance onto the accumulation target with additive (one / one)
//! factors, so the accumulated value is the order-independent sum of the
//! per-light contributions. Both facts are proved here over the pixel
//! model that the pass contracts in [`crate::context`] refer to.

use vstd::prelude::*;
use vstd::seq_lib::group_to_multiset_ensures;

verus! {

/// The cleared depth value: the far plane, which every real fragment
/// passes the less-than test against.
pub const DEPTH_FAR: u32 = 0xffff_ffff;

/// One rasterized fragment: its depth and the surface attributes it
/// would write into the G-buffer.
#[derive(Clone, Copy, PartialEq, Eq, Structural, Debug)]
pub struct Fragment {
    pub depth: u32,
    pub diffuse: u32,
    pub material: u32,
    pub normal: u32,
}

/// One G-buffer pixel: the stored depth and the three colour attributes.
#[derive(Clone, Copy, PartialEq, Eq, Structural, Debug)]
pub struct GPixel {
    pub depth: u32,
    pub diffuse: u32,
    pub material: u32,
    pub normal: u32,
}

/// The cleared pixel: depth at the far value, all colour targets zero.
pub open spec fn spec_cleared() -> GPixel {
    GPixel { depth: DEPTH_FAR, diffuse: 0, material: 0, normal: 0 }
}

/// The pixel a fragment would write.
pub open spec fn pixel_of(f: Fragment) -> GPixel {
    GPixel { depth: f.depth, diffuse: f.diffuse, material: f.material, normal: f.normal }
}

/// The less-than depth test with depth write enabled: a strictly nearer
/// fragment replaces the pixel, anything else leaves it unchanged.
pub open spec fn spec_depth_test(p: GPixel, f: Fragment) -> GPixel {
    if f.depth < p.depth {
        pixel_of(f)
    } else {
        p
    }
}

/// The pixel after rasterizing a sequence of fragments in submission
/// order.
pub open spec fn spec_resolve(frags: Seq<Fragment>, p: GPixel) -> GPixel
    decreases frags.len(),
{
    if frags.len() == 0 {
        p
    } else {
        spec_depth_test(spec_resolve(frags.drop_last(), p), frags.last())
    }
}

/// Rasterize one pixel's fragments in submission order against a cleared
/// target, exact per [`spec_resolve`].
pub fn rasterize_pixel(frags: &Vec<Fragment>) -> (p: GPixel)
    ensures
        p == spec_resolve(frags@, spec_cleared()),
{
    let mut p = GPixel { depth: DEPTH_FAR, diffuse: 0, material: 0, normal: 0 };
    let mut i: usize = 0;
    while i < frags.len()
        invariant
            0 <= i <= frags@.len(),
            p == spec_resolve(frags@.take(i as int), spec_cleared()),
        decreases frags@.len() - i,
    {
        let f = frags[i];
        proof {
            assert(frags@.take(i as int + 1).drop_last() =~= frags@.take(i as int));
            assert(frags@.take(i as int + 1).last() == f);
        }
        if f.depth < p.depth {
            p = GPixel { depth: f.depth, diffuse: f.diffuse, material: f.material, normal: f.normal };
        }
        i += 1;
    }
    proof {
        assert(frags@.take(frags@.len() as int) =~= frags@);
    }
    p
}

/// What a resolved pixel can be: it is never farther than the initial
/// pixel or any fragment, and it is either the initial pixel untouched or
/// the verbatim values of some strictly nearer fragment.
pub proof fn lemma_resolve_char(frags: Seq<Fragment>, p: GPixel)
    ensures
        forall|i: int|
            0 <= i < frags.len() ==> spec_resolve(frags, p).depth <= #[trigger] frags[i].depth,
        spec_resolve(frags, p).depth <= p.depth,
        spec_resolve(frags, p) == p || exists|i: int|
            0 <= i < frags.len() && spec_resolve(frags, p) == pixel_of(#[trigger] frags[i])
                && frags[i].depth < p.depth,
    decreases frags.len(),
{
    if frags.len() > 0 {
        let prefix = frags.drop_last();
        lemma_resolve_char(prefix, p);
        let r0 = spec_resolve(prefix, p);
        let last = frags.last();
        assert(forall|i: int| 0 <= i < prefix.len() ==> prefix[i] == frags[i]);
        if last.depth < r0.depth {
            assert(spec_resolve(frags, p) == pixel_of(frags[frags.len() - 1]));
        } else {
            if r0 != p {
                let i = choose|i: int|
                    0 <= i < prefix.len() && r0 == pixel_of(#[trigger] prefix[i]) && prefix[i].depth
                        < p.depth;
                assert(spec_resolve(frags, p) == pixel_of(frags[i]));
            }
        }
    }
}

/// Depth correctness: over fragments of pairwise distinct depths, the
/// resolved pixel does not depend on submission order — the nearest
/// fragment wins either way.
pub proof fn lemma_depth_order_irrelevant(s1: Seq<Fragment>, s2: Seq<Fragment>, p: GPixel)
    requires
        s1.to_multiset() == s2.to_multiset(),
        forall|i: int, j: int|
            0 <= i < j < s1.len() ==> (#[trigger] s1[i]).depth != (#[trigger] s1[j]).depth,
    ensures
        spec_resolve(s1, p) == spec_resolve(s2, p),
{
    broadcast use group_to_multiset_ensures;

    lemma_resolve_char(s1, p);
    lemma_resolve_char(s2, p);
    let r1 = spec_resolve(s1, p);
    let r2 = spec_resolve(s2, p);
    if r1 == p && r2 == p {
    } else if r1 != p {
        let i = choose|i: int|
            0 <= i < s1.len() && r1 == pixel_of(#[trigger] s1[i]) && s1[i].depth < p.depth;
        assert(s1.contains(s1[i]));
        assert(s1.to_multiset().count(s1[i]) > 0);
        assert(s2.to_multiset().count(s1[i]) > 0);
        assert(s2.contains(s1[i]));
        let i2 = choose|m: int| 0 <= m < s2.len() && s2[m] == s1[i];
        assert(r2.depth <= s2[i2].depth);
        assert(r2 != p);
        let j = choose|j: int|
            0 <= j < s2.len() && r2 == pixel_of(#[trigger] s2[j]) && s2[j].depth < p.depth;
        assert(s2.contains(s2[j]));
        assert(s2.to_multiset().count(s2[j]) > 0);
        assert(s1.to_multiset().count(s2[j]) > 0);
        assert(s1.contains(s2[j]));
        let j1 = choose|m: int| 0 <= m < s1.len() && s1[m] == s2[j];
        assert(r1.depth <= s1[j1].depth);
        assert(r1.depth == r2.depth);
        if i != j1 {
            assert(s1[i].depth != s1[j1].depth);
        }
        assert(s1[i] == s2[j]);
    } else {
        let j = choose|j: int|
            0 <= j < s2.len() && r2 == pixel_of(#[trigger] s2[j]) && s2[j].depth < p.depth;
        assert(s2.contains(s2[j]));
        assert(s2.to_multiset().count(s2[j]) > 0);
        assert(s1.to_multiset().count(s2[j]) > 0);
        assert(s1.contains(s2[j]));
        let j1 = choose|m: int| 0 <= m < s1.len() && s1[m] == s2[j];
        assert(r1.depth <= s1[j1].depth);
    }
}

/// The accumulated radiance at one pixel: the sum of the per-light
/// contributions, in submission order.
pub open spec fn spec_sum(s: Seq<i32>) -> int
    decreases s.len(),
{
    if s.len() == 0 {
        0
    } else {
        spec_sum(s.drop_last()) + s.last()
    }
}

/// Additive (one / one) blending of per-light contributions at one pixel:
/// each light's radiance is added onto the cleared accumulation target.
pub fn accumulate_pixel(contribs: &Vec<i32>) -> (total: i64)
    requires
        contribs@.len() <= 0xffff_ffff,
    ensures
        total == spec_sum(contribs@),
{
    let mut total: i64 = 0;
    let mut i: usize = 0;
    while i < contribs.len()
        invariant
            0 <= i <= contribs@.len(),
            contribs@.len() <= 0xffff_ffff,
            total == spec_sum(contribs@.take(i as int)),
            -(i as int) * 0x8000_0000 <= total <= (i as int) * 0x8000_0000,
        decreases contribs@.len() - i,
    {
        let c = contribs[i];
        proof {
            assert(contribs@.take(i as int + 1).drop_last() =~= contribs@.take(i as int));
            assert(contribs@.take(i as int + 1).last() == c);
        }
        total = total + (c as i64);
        i += 1;
    }
    proof {
        assert(contribs@.take(contribs@.len() as int) =~= contribs@);
    }
    total
}

/// The sum with one element taken out.
proof fn lemma_sum_remove(s: Seq<i32>, i: int)
    requires
        0 <= i < s.len(),
    ensures
        spec_sum(s.remove(i)) == spec_sum(s) - s[i],
    decreases s.len(),
{
    if i == s.len() - 1 {
        assert(s.remove(i) =~= s.drop_last());
    } else {
        let t = s.remove(i);
        assert(t.last() == s.last());
        assert(t.drop_last() =~= s.drop_last().remove(i));
        lemma_sum_remove(s.drop_last(), i);
    }
}

/// Light-order invariance: because additive blending is commutative, any
/// permutation of the per-light contributions accumulates to the same
/// value — the final buffer is independent of light submission order.
pub proof fn lemma_light_order_invariance(c1: Seq<i32>, c2: Seq<i32>)
    requires
        c1.to_multiset() == c2.to_multiset(),
    ensures
        spec_sum(c1) == spec_sum(c2),
    decreases c1.len(),
{
    broadcast use group_to_multiset_ensures;

    if c1.len() == 0 {
        assert(c1.to_multiset().len() == 0);
        assert(c2.to_multiset().len() == 0);
        assert(c2.len() == 0);
    } else {
        let x = c1.last();
        let li = c1.len() - 1;
        assert(c1.contains(x));
        assert(c1.to_multiset().count(x) > 0);
        assert(c2.to_multiset().count(x) > 0);
        assert(c2.contains(x));
        let j = choose|j: int| 0 <= j < c2.len() && c2[j] == x;
        lemma_sum_remove(c2, j);
        lemma_sum_remove(c1, li);
        assert(c1.remove(li) =~= c1.drop_last());
        assert(c1.drop_last().to_multiset() == c2.remove(j).to_multiset()) by {
            assert(c1.remove(li).to_multiset() =~= c1.to_multiset().remove(x));
            assert(c2.remove(j).to_multiset() =~= c2.to_multiset().remove(x));
        }
        lemma_light_order_invariance(c1.drop_last(), c2.remove(j));
    }
}

} // verus!
