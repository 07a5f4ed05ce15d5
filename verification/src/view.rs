//! Buffer identifiers and strided views.
use vstd::prelude::*;
use crate::strides::{extents, product_from, row_major_stride, try_compute_strides};

verus! {

/// Names a pooled device buffer. It says nothing of the buffer's size or
/// contents.
#[derive(Clone, Copy, Debug, PartialEq, Eq, Hash, Structural)]
pub struct BufferId(pub u64);

/// Largest number of dimensions a view can have.
pub const MAX_DIMS: usize = 8;

/// How a flat buffer is addressed as an N-dimensional array: an offset, a
/// shape and one stride per axis, all in elements. Only the first `ndim`
/// entries of `shape` and `strides` mean anything. A stride of zero makes
/// its axis a broadcast axis.
#[derive(Clone, Copy, Debug, PartialEq, Eq)]
pub struct ViewDescriptor {
    pub offset: u32,
    pub ndim: u32,
    pub shape: [u32; MAX_DIMS],
    pub strides: [u32; MAX_DIMS],
}

/// A shape that a view descriptor can hold with row-major strides: at
/// most `MAX_DIMS` axes, every extent and every stride within 32 bits.
pub open spec fn representable(shape: Seq<usize>) -> bool {
    &&& shape.len() <= MAX_DIMS
    &&& forall|i: int| 0 <= i < shape.len() ==> #[trigger] shape[i] <= u32::MAX
    &&& forall|i: int|
        0 <= i < shape.len() ==> #[trigger] row_major_stride(extents(shape), i) <= u32::MAX
}

/// Where one extent is zero and none is negative, the product of all is
/// zero.
pub proof fn lemma_product_zero(dims: Seq<int>, from: int, zero_at: int)
    requires
        0 <= from <= zero_at < dims.len(),
        dims[zero_at] == 0,
    ensures
        product_from(dims, from) == 0,
    decreases zero_at - from,
{
    if from < zero_at {
        lemma_product_zero(dims, from + 1, zero_at);
        assert(dims[from] * 0 == 0);
    } else {
        assert(0 * product_from(dims, from + 1) == 0);
    }
}

/// Where every extent is at least 1, dropping leading extents cannot
/// make the product larger, and no product is below 1.
pub proof fn lemma_product_monotone(dims: Seq<int>, from: int, to: int)
    requires
        0 <= from <= to <= dims.len(),
        forall|i: int| 0 <= i < dims.len() ==> #[trigger] dims[i] >= 1,
    ensures
        1 <= product_from(dims, to) <= product_from(dims, from),
    decreases dims.len() - from,
{
    if from < dims.len() {
        lemma_product_monotone(dims, from + 1, if to > from {
            to
        } else {
            from + 1
        });
        let tail = product_from(dims, from + 1);
        assert(dims[from] * tail >= tail) by (nonlinear_arith)
            requires
                dims[from] >= 1,
                tail >= 1,
        ;
    }
}

impl ViewDescriptor {
    /// The descriptor does not claim more axes than it has room for.
    pub open spec fn wf(self) -> bool {
        self.ndim <= MAX_DIMS
    }

    /// The extents of the axes in use.
    pub open spec fn dims(self) -> Seq<int> {
        Seq::new(self.ndim as nat, |i: int| self.shape[i] as int)
    }

    /// The number of elements the view addresses: the product of its
    /// extents.
    pub open spec fn element_count(self) -> int {
        product_from(self.dims(), 0)
    }

    /// The row-major, offset-free view of `shape`, with unused entries
    /// zero.
    pub open spec fn is_contiguous_for(self, shape: Seq<usize>) -> bool {
        &&& self.offset == 0
        &&& self.ndim == shape.len()
        &&& shape.len() <= MAX_DIMS
        &&& forall|i: int|
            #![trigger self.shape[i]]
            #![trigger self.strides[i]]
            0 <= i < shape.len() ==> self.shape[i] == shape[i] && self.strides[i]
                == row_major_stride(extents(shape), i)
        &&& forall|i: int|
            #![trigger self.shape[i]]
            #![trigger self.strides[i]]
            shape.len() <= i < MAX_DIMS ==> self.shape[i] == 0 && self.strides[i] == 0
    }

    /// The descriptor with every field zero: no axes, one element.
    pub fn zeroed() -> (v: Self)
        ensures
            v.offset == 0,
            v.ndim == 0,
            forall|i: int|
                #![trigger v.shape[i]]
                #![trigger v.strides[i]]
                0 <= i < MAX_DIMS ==> v.shape[i] == 0 && v.strides[i] == 0,
    {
        ViewDescriptor { offset: 0, ndim: 0, shape: [0; MAX_DIMS], strides: [0; MAX_DIMS] }
    }

    /// The number of elements of the view, where the view is well formed
    /// and the number fits in 32 bits.
    pub fn total_elems(&self) -> (total: Option<u32>)
        ensures
            total is Some <==> self.wf() && self.element_count() <= u32::MAX,
            total matches Some(n) ==> n == self.element_count(),
    {
        if self.ndim > MAX_DIMS as u32 {
            return None;
        }
        let n: usize = self.ndim as usize;
        let ghost dims = self.dims();
        let mut k: usize = 0;
        while k < n
            invariant
                k <= n,
                n == self.ndim,
                n <= MAX_DIMS,
                dims == self.dims(),
                forall|j: int| 0 <= j < k ==> #[trigger] dims[j] >= 1,
            decreases n - k,
        {
            if self.shape[k] == 0 {
                proof {
                    assert(dims[k as int] == 0);
                    lemma_product_zero(dims, 0, k as int);
                }
                return Some(0);
            }
            k += 1;
        }
        let mut total: u32 = 1;
        let mut i: usize = n;
        while i > 0
            invariant
                i <= n,
                n == self.ndim,
                n <= MAX_DIMS,
                dims == self.dims(),
                forall|j: int| 0 <= j < dims.len() ==> #[trigger] dims[j] >= 1,
                total == product_from(dims, i as int),
            decreases i,
        {
            i -= 1;
            let dim: u32 = self.shape[i];
            proof {
                assert(dims[i as int] == dim);
                assert(product_from(dims, i as int) == dims[i as int] * product_from(
                    dims,
                    i + 1,
                ));
            }
            match dim.checked_mul(total) {
                Some(v) => {
                    total = v;
                },
                None => {
                    proof {
                        lemma_product_monotone(dims, 0, i as int);
                    }
                    return None;
                },
            }
        }
        Some(total)
    }

    /// The row-major view of `shape`, where a descriptor can hold it.
    pub fn contiguous(shape: &[usize]) -> (view: Option<ViewDescriptor>)
        ensures
            view is Some <==> representable(shape@),
            view matches Some(v) ==> v.is_contiguous_for(shape@),
    {
        let n: usize = shape.len();
        if n > MAX_DIMS {
            return None;
        }
        let strides = match try_compute_strides(shape) {
            Some(s) => s,
            None => {
                return None;
            },
        };
        let mut v = ViewDescriptor::zeroed();
        v.ndim = n as u32;
        let mut i: usize = 0;
        while i < n
            invariant
                i <= n,
                n == shape@.len(),
                n <= MAX_DIMS,
                strides@.len() == n,
                forall|j: int|
                    0 <= j < n ==> #[trigger] strides@[j] == row_major_stride(extents(shape@), j),
                v.offset == 0,
                v.ndim == n,
                forall|j: int|
                    #![trigger v.shape[j]]
                    #![trigger v.strides[j]]
                    0 <= j < i ==> v.shape[j] == shape@[j] && v.strides[j] == row_major_stride(
                        extents(shape@),
                        j,
                    ),
                forall|j: int|
                    #![trigger v.shape[j]]
                    #![trigger v.strides[j]]
                    i <= j < MAX_DIMS ==> v.shape[j] == 0 && v.strides[j] == 0,
            decreases n - i,
        {
            let dim: usize = shape[i];
            let stride: usize = strides[i];
            if dim > u32::MAX as usize || stride > u32::MAX as usize {
                proof {
                    assert(strides@[i as int] == row_major_stride(extents(shape@), i as int));
                }
                return None;
            }
            v.shape[i] = dim as u32;
            v.strides[i] = stride as u32;
            i += 1;
        }
        proof {
            assert forall|j: int| 0 <= j < shape@.len() implies #[trigger] shape@[j]
                <= u32::MAX by {
                assert(v.shape[j] == shape@[j]);
            }
            assert forall|j: int| 0 <= j < shape@.len() implies #[trigger] row_major_stride(
                extents(shape@),
                j,
            ) <= u32::MAX by {
                assert(v.shape[j] == shape@[j]);
            }
        }
        Some(v)
    }
}

/// A view that is contiguous for a shape has the shape's extents, and so
/// addresses as many elements as the shape has.
pub proof fn lemma_contiguous_dims(v: ViewDescriptor, shape: Seq<usize>)
    requires
        v.is_contiguous_for(shape),
    ensures
        v.wf(),
        v.dims() == extents(shape),
        v.element_count() == product_from(extents(shape), 0),
{
    assert(v.dims() =~= extents(shape)) by {
        assert forall|i: int| 0 <= i < shape.len() implies v.dims()[i] == extents(shape)[i] by {
            assert(v.shape[i] == shape[i]);
        }
    }
}

} // verus!
