//! Row-major strides of a shape.
use vstd::prelude::*;

verus! {

/// The extents of a shape as mathematical integers.
pub open spec fn extents(shape: Seq<usize>) -> Seq<int> {
    Seq::new(shape.len(), |i: int| shape[i] as int)
}

/// The product of the entries of `dims` from index `from` on; 1 where
/// there is none.
pub open spec fn product_from(dims: Seq<int>, from: int) -> int
    decreases dims.len() - from,
{
    if from < 0 || from >= dims.len() {
        1
    } else {
        dims[from] * product_from(dims, from + 1)
    }
}

/// The row-major stride of axis `axis`: the number of elements that one
/// step along the axis skips, which is the product of all later extents.
pub open spec fn row_major_stride(dims: Seq<int>, axis: int) -> int {
    product_from(dims, axis + 1)
}

/// Every row-major stride of the shape fits in a `usize`.
pub open spec fn strides_fit(shape: Seq<usize>) -> bool {
    forall|i: int|
        0 <= i < shape.len() ==> #[trigger] row_major_stride(extents(shape), i) <= usize::MAX
}

/// `strides` are the row-major strides of `shape`: the last one is 1, and
/// each other one is the next stride times the next extent.
pub open spec fn is_row_major(shape: Seq<usize>, strides: Seq<usize>) -> bool {
    &&& strides.len() == shape.len()
    &&& shape.len() > 0 ==> strides[shape.len() - 1] == 1
    &&& forall|i: int|
        0 <= i < shape.len() - 1 ==> #[trigger] strides[i] == strides[i + 1] * shape[i + 1]
}

/// Row-major strides obey the recurrence that defines the layout, and
/// there is only one sequence that does.
pub proof fn lemma_row_major_unique(shape: Seq<usize>, strides: Seq<usize>)
    ensures
        is_row_major(shape, strides) <==> {
            &&& strides.len() == shape.len()
            &&& forall|i: int|
                0 <= i < shape.len() ==> #[trigger] strides[i] == row_major_stride(
                    extents(shape),
                    i,
                )
        },
{
    let dims = extents(shape);
    let n = shape.len() as int;
    if is_row_major(shape, strides) {
        assert forall|i: int| 0 <= i < n implies #[trigger] strides[i] == row_major_stride(
            dims,
            i,
        ) by {
            lemma_row_major_from_recurrence(shape, strides, i);
        }
    }
    if strides.len() == shape.len() && (forall|i: int|
        0 <= i < shape.len() ==> #[trigger] strides[i] == row_major_stride(dims, i)) {
        assert forall|i: int| 0 <= i < n - 1 implies #[trigger] strides[i] == strides[i + 1]
            * shape[i + 1] by {
            assert(strides[i + 1] == row_major_stride(dims, i + 1));
            assert(row_major_stride(dims, i) == dims[i + 1] * product_from(dims, i + 2));
            assert(dims[i + 1] * product_from(dims, i + 2) == product_from(dims, i + 2) * dims[i
                + 1]) by (nonlinear_arith);
        }
        if n > 0 {
            assert(strides[n - 1] == row_major_stride(dims, n - 1));
        }
    }
}

proof fn lemma_row_major_from_recurrence(shape: Seq<usize>, strides: Seq<usize>, i: int)
    requires
        is_row_major(shape, strides),
        0 <= i < shape.len(),
    ensures
        strides[i] == row_major_stride(extents(shape), i),
    decreases shape.len() - i,
{
    let dims = extents(shape);
    if i + 1 < shape.len() {
        lemma_row_major_from_recurrence(shape, strides, i + 1);
        assert(strides[i] == strides[i + 1] * shape[i + 1]);
        assert(row_major_stride(dims, i) == dims[i + 1] * product_from(dims, i + 2));
        assert(dims[i + 1] * product_from(dims, i + 2) == product_from(dims, i + 2) * dims[i + 1])
            by (nonlinear_arith);
    }
}

/// Computes the row-major strides of a shape. The empty shape has the
/// empty stride list.
pub fn compute_strides(shape: &[usize]) -> (strides: Vec<usize>)
    requires
        strides_fit(shape@),
    ensures
        is_row_major(shape@, strides@),
        forall|i: int|
            0 <= i < shape@.len() ==> #[trigger] strides@[i] == row_major_stride(
                extents(shape@),
                i,
            ),
{
    try_compute_strides(shape).unwrap()
}

/// Computes the row-major strides of a shape, or nothing where one of
/// them does not fit in a `usize`.
pub fn try_compute_strides(shape: &[usize]) -> (result: Option<Vec<usize>>)
    ensures
        result is Some <==> strides_fit(shape@),
        result matches Some(strides) ==> {
            &&& is_row_major(shape@, strides@)
            &&& forall|i: int|
                0 <= i < shape@.len() ==> #[trigger] strides@[i] == row_major_stride(
                    extents(shape@),
                    i,
                )
        },
{
    let n: usize = shape.len();
    let mut strides: Vec<usize> = Vec::new();
    let mut k: usize = 0;
    while k < n
        invariant
            k <= n,
            strides@.len() == k,
        decreases n - k,
    {
        strides.push(0);
        k += 1;
    }
    if n == 0 {
        proof {
            lemma_row_major_unique(shape@, strides@);
        }
        return Some(strides);
    }
    strides.set(n - 1, 1);
    let mut i: usize = n - 1;
    while i > 0
        invariant
            i < n,
            n == shape@.len(),
            strides@.len() == n,
            forall|j: int|
                i <= j < n ==> #[trigger] strides@[j] == row_major_stride(extents(shape@), j),
        decreases i,
    {
        i -= 1;
        let next: usize = strides[i + 1];
        let dim: usize = shape[i + 1];
        proof {
            let dims = extents(shape@);
            assert(next == row_major_stride(dims, i + 1));
            assert(row_major_stride(dims, i as int) == dims[i + 1] * product_from(dims, i + 2));
            assert(dims[i + 1] * product_from(dims, i + 2) == next * dim) by (nonlinear_arith)
                requires
                    dims[i + 1] == dim,
                    product_from(dims, i + 2) == next,
            ;
        }
        match next.checked_mul(dim) {
            Some(v) => {
                strides.set(i, v);
            },
            None => {
                assert(row_major_stride(extents(shape@), i as int) > usize::MAX);
                return None;
            },
        }
    }
    proof {
        lemma_row_major_unique(shape@, strides@);
        assert forall|j: int| 0 <= j < shape@.len() implies #[trigger] row_major_stride(
            extents(shape@),
            j,
        ) <= usize::MAX by {
            assert(strides@[j] == row_major_stride(extents(shape@), j));
        }
    }
    Some(strides)
}

} // verus!
