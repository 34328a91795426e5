//! Sums of products.

use std::ops::{Add, Mul};
use vstd::prelude::*;
use vstd::std_specs::ops::{AddSpec, MulSpec};

verus! {

/// The types that can be added and multiplied, and that have a value to
/// begin a sum with.
pub trait Numeric: Copy + Clone + Add<Output = Self> + Mul<Output = Self> + Default {

}

impl<T> Numeric for T where T: Copy + Clone + Add<Output = T> + Mul<Output = T> + Default {

}

/// The sum of `zero` and the products of the first `n` pairs of elements.
pub open spec fn dot_from<T: Numeric>(zero: T, left: Seq<T>, right: Seq<T>, n: int) -> T
    decreases n,
{
    if n <= 0 {
        zero
    } else {
        dot_from(zero, left, right, n - 1).add_spec(left[n - 1].mul_spec(right[n - 1]))
    }
}

/// True if each product and each sum on the way to `dot_from` of the
/// first `n` pairs can be computed.
pub open spec fn dot_defined<T: Numeric>(zero: T, left: Seq<T>, right: Seq<T>, n: int) -> bool
    decreases n,
{
    n <= 0 || {
        &&& dot_defined(zero, left, right, n - 1)
        &&& left[n - 1].mul_req(right[n - 1])
        &&& dot_from(zero, left, right, n - 1).add_req(left[n - 1].mul_spec(right[n - 1]))
    }
}

/// The dot product of two lists. None where their lengths differ.
pub fn dot<T: Numeric>(left: &[T], right: &[T]) -> (r: Option<T>)
    requires
        T::obeys_add_spec(),
        T::obeys_mul_spec(),
        left@.len() == right@.len() ==> forall|zero: T|
            call_ensures(T::default, (), zero) ==> dot_defined(
                zero,
                left@,
                right@,
                left@.len() as int,
            ),
    ensures
        left@.len() != right@.len() ==> r is None,
        left@.len() == right@.len() ==> r is Some && exists|zero: T|
            call_ensures(T::default, (), zero) && r->0 == dot_from(
                zero,
                left@,
                right@,
                left@.len() as int,
            ),
{
    if left.len() != right.len() {
        return None;
    }
    let zero = T::default();
    let mut acc = zero;
    let mut i: usize = 0;
    while i < left.len()
        invariant
            T::obeys_add_spec(),
            T::obeys_mul_spec(),
            i <= left@.len(),
            left@.len() == right@.len(),
            acc == dot_from(zero, left@, right@, i as int),
            dot_defined(zero, left@, right@, left@.len() as int),
        decreases left@.len() - i,
    {
        proof {
            lemma_defined_before(zero, left@, right@, left@.len() as int, i + 1);
        }
        acc = acc + left[i] * right[i];
        i = i + 1;
    }
    Some(acc)
}

/// The sum of `zero` and the first `n` products of an element of row `r`
/// of `a` and the element of column `c` of `b` that goes with it.
pub open spec fn cell_from<T: Numeric, const R: usize, const C: usize, const K: usize>(
    zero: T,
    a: [[T; K]; R],
    b: [[T; C]; K],
    r: int,
    c: int,
    n: int,
) -> T
    decreases n,
{
    if n <= 0 {
        zero
    } else {
        cell_from(zero, a, b, r, c, n - 1).add_spec(a@[r]@[n - 1].mul_spec(b@[n - 1]@[c]))
    }
}

/// True if each product and each sum on the way to `cell_from` of the
/// first `n` products can be computed.
pub open spec fn cell_defined<T: Numeric, const R: usize, const C: usize, const K: usize>(
    zero: T,
    a: [[T; K]; R],
    b: [[T; C]; K],
    r: int,
    c: int,
    n: int,
) -> bool
    decreases n,
{
    n <= 0 || {
        &&& cell_defined(zero, a, b, r, c, n - 1)
        &&& a@[r]@[n - 1].mul_req(b@[n - 1]@[c])
        &&& cell_from(zero, a, b, r, c, n - 1).add_req(a@[r]@[n - 1].mul_spec(b@[n - 1]@[c]))
    }
}

/// True if `value` is the cell in row `r` and column `c` of the product
/// of `a` and `b`: the sum of the products, begun with a default value.
pub open spec fn is_cell<T: Numeric, const R: usize, const C: usize, const K: usize>(
    value: T,
    a: [[T; K]; R],
    b: [[T; C]; K],
    r: int,
    c: int,
) -> bool {
    exists|zero: T|
        call_ensures(T::default, (), zero) && value == #[trigger] cell_from(
            zero,
            a,
            b,
            r,
            c,
            K as int,
        )
}

proof fn lemma_cell_defined_before<T: Numeric, const R: usize, const C: usize, const K: usize>(
    zero: T,
    a: [[T; K]; R],
    b: [[T; C]; K],
    r: int,
    c: int,
    n: int,
    m: int,
)
    requires
        cell_defined(zero, a, b, r, c, n),
        m <= n,
    ensures
        cell_defined(zero, a, b, r, c, m),
    decreases n,
{
    if m < n && n > 0 {
        lemma_cell_defined_before(zero, a, b, r, c, n - 1, m);
    }
}

/// The product of a matrix of `R` rows and `K` columns and one of `K` rows
/// and `C` columns.
pub fn matmul<T: Numeric, const R: usize, const C: usize, const K: usize>(
    a: [[T; K]; R],
    b: [[T; C]; K],
) -> (out: [[T; C]; R])
    requires
        T::obeys_add_spec(),
        T::obeys_mul_spec(),
        forall|zero: T, r: int, c: int|
            call_ensures(T::default, (), zero) && 0 <= r < R && 0 <= c < C ==> #[trigger] cell_defined(
                zero,
                a,
                b,
                r,
                c,
                K as int,
            ),
    ensures
        forall|r: int, c: int|
            0 <= r < R && 0 <= c < C ==> #[trigger] is_cell(out@[r]@[c], a, b, r, c),
{
    let blank: [T; C] = vstd::array::array_fill_for_copy_types(T::default());
    let mut out: [[T; C]; R] = vstd::array::array_fill_for_copy_types(blank);
    let mut r: usize = 0;
    while r < R
        invariant
            T::obeys_add_spec(),
            T::obeys_mul_spec(),
            r <= R,
            forall|zero: T, r: int, c: int|
                call_ensures(T::default, (), zero) && 0 <= r < R && 0 <= c < C
                    ==> #[trigger] cell_defined(zero, a, b, r, c, K as int),
            forall|i: int, c: int|
                0 <= i < r && 0 <= c < C ==> #[trigger] is_cell(out@[i]@[c], a, b, i, c),
        decreases R - r,
    {
        let mut row: [T; C] = out[r];
        let mut c: usize = 0;
        while c < C
            invariant
                T::obeys_add_spec(),
                T::obeys_mul_spec(),
                r < R,
                c <= C,
                forall|zero: T, r: int, c: int|
                    call_ensures(T::default, (), zero) && 0 <= r < R && 0 <= c < C
                        ==> #[trigger] cell_defined(zero, a, b, r, c, K as int),
                forall|j: int| 0 <= j < c ==> #[trigger] is_cell(row@[j], a, b, r as int, j),
            decreases C - c,
        {
            let zero = T::default();
            let mut sum = zero;
            let mut k: usize = 0;
            while k < K
                invariant
                    T::obeys_add_spec(),
                    T::obeys_mul_spec(),
                    r < R,
                    c < C,
                    k <= K,
                    sum == cell_from(zero, a, b, r as int, c as int, k as int),
                    cell_defined(zero, a, b, r as int, c as int, K as int),
                decreases K - k,
            {
                proof {
                    lemma_cell_defined_before(zero, a, b, r as int, c as int, K as int, k + 1);
                }
                sum = sum + a[r][k] * b[k][c];
                k = k + 1;
            }
            row.set(c, sum);
            c = c + 1;
        }
        out.set(r, row);
        r = r + 1;
    }
    out
}

proof fn lemma_defined_before<T: Numeric>(zero: T, left: Seq<T>, right: Seq<T>, n: int, m: int)
    requires
        dot_defined(zero, left, right, n),
        m <= n,
    ensures
        dot_defined(zero, left, right, m),
    decreases n,
{
    if m < n && n > 0 {
        lemma_defined_before(zero, left, right, n - 1, m);
    }
}

} // verus!
