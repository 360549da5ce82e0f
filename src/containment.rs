use vstd::prelude::*;

use crate::crossing::Crossing;

verus! {

/// The shapes a ray is inside of after crossing the surface of `shape`,
/// starting from `inside` (oldest first): crossing a shape it is inside of
/// leaves that shape, crossing any other enters it.
pub open spec fn toggled(inside: Seq<usize>, shape: usize) -> Seq<usize> {
    if inside.contains(shape) {
        inside.remove_value(shape)
    } else {
        inside.push(shape)
    }
}

/// The shapes a ray is inside of, oldest first, after the first `k`
/// crossings of `xs`.
pub open spec fn inside_after(xs: Seq<Crossing>, k: int) -> Seq<usize>
    decreases k,
{
    if k <= 0 {
        Seq::empty()
    } else {
        toggled(inside_after(xs, k - 1), xs[k - 1].shape)
    }
}

/// The shape whose medium surrounds the ray: the one entered last, or `None`
/// for empty space.
pub open spec fn innermost(inside: Seq<usize>) -> Option<usize> {
    if inside.len() == 0 {
        None
    } else {
        Some(inside.last())
    }
}

/// The media on both sides of the last crossing among the first `k` that
/// equals `hit`: the one the ray comes from and the one it goes into. Both
/// are empty space when no such crossing exists.
pub open spec fn sides_through(xs: Seq<Crossing>, hit: Crossing, k: int) -> (Option<usize>, Option<usize>)
    decreases k,
{
    if k <= 0 {
        (None, None)
    } else if xs[k - 1] == hit {
        (innermost(inside_after(xs, k - 1)), innermost(inside_after(xs, k)))
    } else {
        sides_through(xs, hit, k - 1)
    }
}

/// The shapes a ray is inside of form a set: no shape is entered twice
/// without being left in between.
pub proof fn lemma_inside_has_no_repeats(xs: Seq<Crossing>, k: int)
    ensures
        inside_after(xs, k).no_duplicates(),
    decreases k,
{
    if k > 0 {
        lemma_inside_has_no_repeats(xs, k - 1);
        let before = inside_after(xs, k - 1);
        let shape = xs[k - 1].shape;
        if before.contains(shape) {
            before.index_of_first_ensures(shape);
            let p = before.index_of_first(shape).unwrap();
            assert forall|a: int, b: int|
                0 <= a < b < before.remove(p).len() implies before.remove(p)[a] != before.remove(p)[b] by {
                let a1 = if a < p { a } else { a + 1 };
                let b1 = if b < p { b } else { b + 1 };
                assert(before[a1] != before[b1]);
            }
        }
    }
}

fn innermost_of(inside: &Vec<usize>) -> (r: Option<usize>)
    ensures
        r == innermost(inside@),
{
    if inside.len() == 0 {
        None
    } else {
        Some(inside[inside.len() - 1])
    }
}

/// Walks the crossings of a ray in time order, keeping the stack of shapes
/// the ray is inside of, and returns the shapes whose media lie on either
/// side of the crossing `hit`: first the one the ray leaves, then the one it
/// enters, `None` standing for empty space. Overlapping shapes are handled
/// by leaving a shape wherever it stands in the stack.
pub fn refraction_sides(xs: &Vec<Crossing>, hit: Crossing) -> (r: (Option<usize>, Option<usize>))
    ensures
        r == sides_through(xs@, hit, xs@.len() as int),
{
    let mut inside: Vec<usize> = Vec::new();
    let mut sides: (Option<usize>, Option<usize>) = (None, None);
    let mut k: usize = 0;
    while k < xs.len()
        invariant
            k <= xs@.len(),
            inside@ == inside_after(xs@, k as int),
            sides == sides_through(xs@, hit, k as int),
        decreases xs@.len() - k,
    {
        let c = xs[k];
        let from = innermost_of(&inside);
        let mut p: usize = 0;
        while p < inside.len() && inside[p] != c.shape
            invariant
                p <= inside@.len(),
                forall|j: int| 0 <= j < p ==> inside@[j] != c.shape,
            decreases inside@.len() - p,
        {
            p = p + 1;
        }
        let ghost before = inside@;
        proof {
            before.index_of_first_ensures(c.shape);
            if p < before.len() {
                assert(before.contains(c.shape));
            }
        }
        if p < inside.len() {
            inside.remove(p);
        } else {
            inside.push(c.shape);
        }
        assert(inside@ == toggled(before, c.shape));
        if c == hit {
            let into = innermost_of(&inside);
            sides = (from, into);
        }
        k = k + 1;
    }
    sides
}

} // verus!
