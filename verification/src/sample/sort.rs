//! Sorting with an order of one's own.

use crate::text::{length, position};
use std::cmp::Ordering;
use vstd::prelude::*;

verus! {

/// True if `order` puts `a` before `b`.
pub open spec fn comes_before<T, F: Fn(&T, &T) -> Ordering>(order: F, a: T, b: T) -> bool {
    call_ensures(order, (&a, &b), Ordering::Less)
}

/// True if `order` can be asked of any two values, gives one answer for
/// each two, and the answers are those of a strict weak order: nothing is
/// before itself or before what is before it, what is before is so across
/// any value between, and so is what is not before.
pub open spec fn is_order<T, F: Fn(&T, &T) -> Ordering>(order: F) -> bool {
    &&& forall|a: T, b: T| #[trigger] call_requires(order, (&a, &b))
    &&& forall|a: T, b: T, o: Ordering|
        #[trigger] call_ensures(order, (&a, &b), o) ==> (o == Ordering::Less <==> comes_before(
            order,
            a,
            b,
        ))
    &&& forall|a: T, b: T| #[trigger] comes_before(order, a, b) ==> !comes_before(order, b, a)
    &&& forall|a: T, b: T, c: T|
        #[trigger] comes_before(order, a, b) && #[trigger] comes_before(order, b, c) ==> comes_before(order, a, c)
    &&& forall|a: T, b: T, c: T|
        !#[trigger] comes_before(order, a, b) && !#[trigger] comes_before(order, b, c) ==> !comes_before(
            order,
            a,
            c,
        )
}

/// True if between `lo` and `hi` no element is before one that stands
/// before it.
pub open spec fn sorted_between<T, F: Fn(&T, &T) -> Ordering>(
    s: Seq<T>,
    lo: int,
    hi: int,
    order: F,
) -> bool {
    forall|i: int, j: int| lo <= i < j < hi ==> !comes_before(order, #[trigger] s[j], #[trigger] s[i])
}

proof fn lemma_swap<T>(s: Seq<T>, a: int, b: int)
    requires
        0 <= a < s.len(),
        0 <= b < s.len(),
    ensures
        s.update(a, s[b]).update(b, s[a]).to_multiset() == s.to_multiset(),
{
    broadcast use vstd::seq_lib::group_to_multiset_ensures;

}

proof fn lemma_came_from<T>(before: Seq<T>, after: Seq<T>, k: int) -> (j: int)
    requires
        before.to_multiset() == after.to_multiset(),
        0 <= k < after.len(),
    ensures
        0 <= j < before.len(),
        before[j] == after[k],
{
    broadcast use vstd::seq_lib::group_to_multiset_ensures;

    assert(before.to_multiset().count(after[k]) > 0);
    choose|j: int| 0 <= j < before.len() && before[j] == after[k]
}

proof fn lemma_three_parts<T>(s: Seq<T>, lo: int, mid: int, hi: int)
    requires
        0 <= lo <= mid < hi <= s.len(),
    ensures
        s.subrange(lo, hi).to_multiset() == s.subrange(lo, mid).to_multiset().add(
            s.subrange(mid + 1, hi).to_multiset(),
        ).insert(s[mid]),
{
    broadcast use vstd::seq_lib::group_to_multiset_ensures;

    let left = s.subrange(lo, mid);
    let right = s.subrange(mid + 1, hi);
    assert(s.subrange(lo, hi) =~= left.push(s[mid]) + right);
    vstd::seq_lib::lemma_multiset_commutative(left.push(s[mid]), right);
}

/// Sorts the elements from `lo` up to `hi`, and leaves the others.
fn sort_between<T, F: Fn(&T, &T) -> Ordering>(v: &mut [T], lo: usize, hi: usize, order: &F)
    requires
        lo <= hi <= old(v)@.len(),
        is_order(*order),
    ensures
        final(v)@.len() == old(v)@.len(),
        forall|k: int|
            0 <= k < old(v)@.len() && !(lo <= k < hi) ==> #[trigger] final(v)@[k] == old(v)@[k],
        final(v)@.subrange(position(lo), position(hi)).to_multiset() == old(v)@.subrange(
            position(lo),
            position(hi),
        ).to_multiset(),
        sorted_between(final(v)@, position(lo), position(hi), *order),
    decreases hi - lo,
{
    let total = v.len();
    if hi - lo <= 1 {
        return ;
    }
    let ghost first = v@;
    let last = hi - 1;
    let middle = lo + (hi - lo) / 2;
    v.swap(middle, last);
    proof {
        lemma_swap(first.subrange(position(lo), position(hi)), middle - lo, last - lo);
        assert(v@.subrange(position(lo), position(hi)) =~= first.subrange(
            position(lo),
            position(hi),
        ).update(middle - lo, first[position(last)]).update(last - lo, first[position(middle)]));
    }
    let ghost pivot = v@[position(last)];
    let mut store = lo;
    let mut i = lo;
    while i < last
        invariant
            lo <= store <= i <= last,
            last + 1 == hi,
            hi <= v@.len(),
            v@.len() == first.len(),
            total == v@.len(),
            is_order(*order),
            pivot == v@[position(last)],
            forall|k: int|
                0 <= k < first.len() && !(lo <= k < hi) ==> #[trigger] v@[k] == first[k],
            v@.subrange(position(lo), position(hi)).to_multiset() == first.subrange(
                position(lo),
                position(hi),
            ).to_multiset(),
            forall|k: int| lo <= k < store ==> comes_before(*order, #[trigger] v@[k], pivot),
            forall|k: int| store <= k < i ==> !comes_before(*order, #[trigger] v@[k], pivot),
        decreases last - i,
    {
        let answer = order(&v[i], &v[last]);
        let is_before = match answer {
            Ordering::Less => true,
            _ => false,
        };
        if is_before {
            let ghost now = v@;
            v.swap(i, store);
            proof {
                lemma_swap(now.subrange(position(lo), position(hi)), i - lo, store - lo);
                assert(v@.subrange(position(lo), position(hi)) =~= now.subrange(
                    position(lo),
                    position(hi),
                ).update(i - lo, now[position(store)]).update(store - lo, now[position(i)]));
            }
            store = store + 1;
        }
        i = i + 1;
    }
    let ghost parted = v@;
    v.swap(store, last);
    proof {
        lemma_swap(parted.subrange(position(lo), position(hi)), store - lo, last - lo);
        assert(v@.subrange(position(lo), position(hi)) =~= parted.subrange(
            position(lo),
            position(hi),
        ).update(store - lo, parted[position(last)]).update(last - lo, parted[position(store)]));
    }
    let ghost placed = v@;
    sort_between(v, lo, store, order);
    let ghost left_done = v@;
    sort_between(v, store + 1, hi, order);
    proof {
        let done = v@;
        let l = position(lo);
        let m = position(store);
        let h = position(hi);
        assert(done.subrange(l, m) =~= left_done.subrange(l, m));
        assert(left_done.subrange(m + 1, h) =~= placed.subrange(m + 1, h));
        lemma_three_parts(done, l, m, h);
        lemma_three_parts(placed, l, m, h);
        assert forall|k: int| l <= k < m implies comes_before(*order, #[trigger] done[k], pivot) by {
            lemma_came_from(placed.subrange(l, m), done.subrange(l, m), k - l);
        }
        assert forall|k: int| m < k < h implies !comes_before(*order, #[trigger] done[k], pivot) by {
            lemma_came_from(
                placed.subrange(m + 1, h),
                done.subrange(m + 1, h),
                k - (m + 1),
            );
        }
    }
}

/// Sorts a slice by an order of one's own. Elements of which neither is
/// before the other may change places.
pub fn quicksort_by<T, F: Fn(&T, &T) -> Ordering>(slice: &mut [T], order: F)
    requires
        is_order(order),
    ensures
        final(slice)@.to_multiset() == old(slice)@.to_multiset(),
        sorted_between(final(slice)@, 0, length(final(slice)@.len()), order),
{
    let n = slice.len();
    sort_between(slice, 0, n, &order);
    assert(slice@.subrange(0, position(n)) =~= slice@);
    assert(old(slice)@.subrange(0, position(n)) =~= old(slice)@);
}

} // verus!
