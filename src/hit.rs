use vstd::prelude::*;

use crate::crossing::Crossing;

verus! {

/// Crossing `i` is the first of the nearest among those that `admitted`
/// accepts: no admitted crossing is earlier, and every admitted crossing
/// listed before it is strictly later.
pub open spec fn first_nearest(xs: Seq<Crossing>, i: int, admitted: spec_fn(int) -> bool) -> bool {
    &&& 0 <= i < xs.len()
    &&& admitted(i)
    &&& forall|j: int| 0 <= j < xs.len() && admitted(j) ==> xs[i].time_key <= #[trigger] xs[j].time_key
    &&& forall|j: int| 0 <= j < i && admitted(j) ==> xs[i].time_key < #[trigger] xs[j].time_key
}

/// Crossing `i` lies ahead of the ray's origin.
pub open spec fn ahead(xs: Seq<Crossing>, i: int) -> bool {
    xs[i].time_key > 0
}

/// Crossing `i` lies ahead of the ray's origin, on a shape that casts shadows.
pub open spec fn blocks_light(xs: Seq<Crossing>, casts_shadow: Seq<bool>, i: int) -> bool {
    xs[i].time_key > 0 && casts_shadow[xs[i].shape as int]
}

/// Every crossing names a shape of the scene.
pub open spec fn shapes_known(xs: Seq<Crossing>, n_shapes: nat) -> bool {
    forall|i: int| 0 <= i < xs.len() ==> (#[trigger] xs[i]).shape < n_shapes
}

/// The visible hit: the earliest crossing ahead of the origin, the first
/// listed among equally early ones; `None` when no crossing is ahead.
pub fn hit_index(xs: &Vec<Crossing>) -> (r: Option<usize>)
    ensures
        r is None <==> forall|i: int| 0 <= i < xs@.len() ==> !ahead(xs@, i),
        r matches Some(i) ==> first_nearest(xs@, i as int, |j: int| ahead(xs@, j)),
{
    let mut best: Option<usize> = None;
    let mut k: usize = 0;
    while k < xs.len()
        invariant
            k <= xs@.len(),
            best is None <==> forall|i: int| 0 <= i < k ==> !ahead(xs@, i),
            best matches Some(b) ==> b < k && first_nearest(xs@.take(k as int), b as int, |j: int| ahead(xs@, j)),
        decreases xs@.len() - k,
    {
        if xs[k].time_key > 0 {
            match best {
                None => {
                    best = Some(k);
                },
                Some(b) => {
                    if xs[k].time_key < xs[b].time_key {
                        best = Some(k);
                    }
                },
            }
        }
        proof {
            if let Some(b) = best {
                assert(ahead(xs@, b as int));
            }
        }
        k = k + 1;
    }
    assert(xs@.take(xs@.len() as int) == xs@);
    best
}

/// The crossing that blocks light: the earliest crossing ahead of the origin
/// on a shape that casts shadows, the first listed among equally early ones;
/// `None` when there is none. `casts_shadow` holds, for each shape, whether
/// it casts shadows; a nearer crossing on a shape that does not is passed
/// over.
pub fn shadow_hit_index(xs: &Vec<Crossing>, casts_shadow: &Vec<bool>) -> (r: Option<usize>)
    requires
        shapes_known(xs@, casts_shadow@.len()),
    ensures
        r is None <==> forall|i: int| 0 <= i < xs@.len() ==> !blocks_light(xs@, casts_shadow@, i),
        r matches Some(i) ==> first_nearest(xs@, i as int, |j: int| blocks_light(xs@, casts_shadow@, j)),
        r matches Some(i) ==> casts_shadow@[xs@[i as int].shape as int],
{
    let mut best: Option<usize> = None;
    let mut k: usize = 0;
    while k < xs.len()
        invariant
            k <= xs@.len(),
            shapes_known(xs@, casts_shadow@.len()),
            best is None <==> forall|i: int| 0 <= i < k ==> !blocks_light(xs@, casts_shadow@, i),
            best matches Some(b) ==> b < k && first_nearest(
                xs@.take(k as int),
                b as int,
                |j: int| blocks_light(xs@, casts_shadow@, j),
            ),
        decreases xs@.len() - k,
    {
        if xs[k].time_key > 0 && casts_shadow[xs[k].shape] {
            match best {
                None => {
                    best = Some(k);
                },
                Some(b) => {
                    if xs[k].time_key < xs[b].time_key {
                        best = Some(k);
                    }
                },
            }
        }
        proof {
            if let Some(b) = best {
                assert(blocks_light(xs@, casts_shadow@, b as int));
            }
        }
        k = k + 1;
    }
    assert(xs@.take(xs@.len() as int) == xs@);
    best
}

/// Whether something casts a shadow on the way to a light: some crossing
/// ahead of the origin, on a shape that casts shadows, comes before the time
/// key `limit` (the key of the light's distance).
pub fn blocked_before(xs: &Vec<Crossing>, casts_shadow: &Vec<bool>, limit: i64) -> (r: bool)
    requires
        shapes_known(xs@, casts_shadow@.len()),
    ensures
        r == exists|i: int| 0 <= i < xs@.len() && blocks_light(xs@, casts_shadow@, i) && #[trigger] xs@[i].time_key < limit,
{
    match shadow_hit_index(xs, casts_shadow) {
        None => false,
        Some(i) => {
            let r = xs[i].time_key < limit;
            proof {
                if !r {
                    assert forall|j: int| 0 <= j < xs@.len() && blocks_light(xs@, casts_shadow@, j) implies !(#[trigger] xs@[j].time_key < limit) by {
                        assert(xs@[i as int].time_key <= xs@[j].time_key);
                    }
                }
            }
            r
        },
    }
}

} // verus!
