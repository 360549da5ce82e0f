use vstd::prelude::*;

verus! {

/// Bit pattern of the sign of an IEEE 754 double.
pub const SIGN_BIT: u64 = 0x8000_0000_0000_0000;

/// The order key of the double whose IEEE 754 bits are `bits`: the magnitude
/// bits, negated when the sign bit is set.
pub open spec fn key_of_bits(bits: u64) -> int {
    if bits >= SIGN_BIT {
        -((bits - SIGN_BIT) as int)
    } else {
        bits as int
    }
}

/// Maps the bits of a double to a signed integer that orders as the doubles
/// do: for any two doubles that are not NaN, `a < b` exactly when
/// `time_key(a.to_bits()) < time_key(b.to_bits())`, and both zeros map to 0,
/// so `t > 0.0` exactly when the key is positive.
pub fn time_key(bits: u64) -> (r: i64)
    ensures
        r as int == key_of_bits(bits),
{
    if bits >= SIGN_BIT {
        let magnitude: u64 = bits - SIGN_BIT;
        -(magnitude as i64)
    } else {
        bits as i64
    }
}

/// One crossing of a ray with a shape's surface: when it happens, as an order
/// key of the time along the ray (see [`time_key`]), and which shape it is.
#[derive(Clone, Copy, Debug, PartialEq, Eq, Structural)]
pub struct Crossing {
    pub time_key: i64,
    pub shape: usize,
}

/// Crossing `a` comes before crossing `b` in ray order: earlier in time, and
/// on equal times the one listed first (a stable order).
pub open spec fn precedes(keys: Seq<i64>, a: int, b: int) -> bool {
    keys[a] < keys[b] || (keys[a] == keys[b] && a < b)
}

/// `order` lists every index of `keys` once, in ray order.
pub open spec fn is_ray_order(keys: Seq<i64>, order: Seq<usize>) -> bool {
    &&& order.len() == keys.len()
    &&& forall|k: int| 0 <= k < order.len() ==> order[k] < keys.len()
    &&& forall|i: usize| i < keys.len() ==> #[trigger] order.contains(i)
    &&& forall|a: int, b: int|
        0 <= a < b < order.len() ==> #[trigger] precedes(keys, order[a] as int, order[b] as int)
}

/// The keys of the crossings, in the order they are listed.
pub open spec fn keys_of(xs: Seq<Crossing>) -> Seq<i64> {
    xs.map_values(|c: Crossing| c.time_key)
}

/// The indices of `xs` sorted by time, ties kept in their listed order.
pub fn ray_order(xs: &Vec<Crossing>) -> (order: Vec<usize>)
    ensures
        is_ray_order(keys_of(xs@), order@),
{
    let ghost keys = keys_of(xs@);
    let mut order: Vec<usize> = Vec::new();
    let mut i: usize = 0;
    while i < xs.len()
        invariant
            i <= xs.len(),
            keys == keys_of(xs@),
            order@.len() == i,
            forall|k: int| 0 <= k < order@.len() ==> order@[k] < i,
            forall|j: usize| j < i ==> #[trigger] order@.contains(j),
            forall|a: int, b: int|
                0 <= a < b < order@.len() ==> #[trigger] precedes(keys, order@[a] as int, order@[b] as int),
        decreases xs.len() - i,
    {
        let key = xs[i].time_key;
        // the first place whose crossing is later than crossing i
        let mut p: usize = 0;
        while p < order.len() && xs[order[p]].time_key <= key
            invariant
                p <= order@.len(),
                i < xs.len(),
                key == keys[i as int],
                keys == keys_of(xs@),
                forall|k: int| 0 <= k < order@.len() ==> order@[k] < i,
                forall|k: int| 0 <= k < p ==> keys[order@[k] as int] <= key,
            decreases order@.len() - p,
        {
            p = p + 1;
        }
        assert(p == order@.len() || keys[order@[p as int] as int] > key);
        let ghost before = order@;
        order.insert(p, i);
        proof {
            assert(order@ == before.insert(p as int, i));
            assert forall|a: int, b: int|
                0 <= a < b < order@.len() implies #[trigger] precedes(keys, order@[a] as int, order@[b] as int) by {
                if b < p {
                } else if a < p && b == p {
                } else if a < p && b > p {
                    assert(precedes(keys, before[a] as int, before[b - 1] as int));
                } else if a == p {
                    if b - 1 > p {
                        assert(precedes(keys, before[p as int] as int, before[b - 1] as int));
                    }
                    assert(keys[before[b - 1] as int] > key);
                } else {
                    assert(precedes(keys, before[a - 1] as int, before[b - 1] as int));
                }
            }
            assert forall|j: usize| j < i + 1 implies #[trigger] order@.contains(j) by {
                if j == i {
                    assert(order@[p as int] == i);
                } else {
                    assert(before.contains(j));
                    let k = choose|k: int| 0 <= k < before.len() && before[k] == j;
                    if k < p {
                        assert(order@[k] == j);
                    } else {
                        assert(order@[k + 1] == j);
                    }
                }
            }
        }
        i = i + 1;
    }
    order
}

} // verus!
