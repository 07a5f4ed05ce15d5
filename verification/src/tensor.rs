//! Tensor handles.
use vstd::prelude::*;
use std::marker::PhantomData;
use crate::bytes::{encode, image_of, words_of};
use crate::device::GpuContext;
use crate::dtype::{DataType, Element, F32Bits};
use crate::memory::{MemoryManager, MemoryModel};
use crate::pool::{MemoryError, Outcome};
use crate::strides::{extents, product_from};
use crate::view::{lemma_contiguous_dims, representable, BufferId, ViewDescriptor};

verus! {

/// A typed reference to a resident buffer: which buffer, how it is
/// addressed, on which device, and what it holds. The handle owns no
/// device memory; releasing the buffer is its holder's business.
///
/// Every handle names the element type of `T`, has a well-formed view,
/// and addresses no more elements than a 32-bit index can reach.
pub struct Tensor<T: Element> {
    buffer_id: BufferId,
    device_id: usize,
    view: ViewDescriptor,
    dtype: DataType,
    _marker: PhantomData<T>,
}

impl<T: Element> Clone for Tensor<T> {
    fn clone(&self) -> (t: Self)
        ensures
            t == *self,
    {
        *self
    }
}

impl<T: Element> Copy for Tensor<T> {

}

impl<T: Element> Tensor<T> {
    /// What holds of every handle.
    #[verifier::type_invariant]
    pub closed spec fn inv(self) -> bool {
        &&& self.dtype == T::spec_dtype()
        &&& self.view.wf()
        &&& self.view.element_count() <= u32::MAX
    }

    /// The view descriptor of the handle.
    pub closed spec fn spec_view(&self) -> ViewDescriptor {
        self.view
    }

    /// The buffer that the handle names.
    pub closed spec fn spec_buffer_id(&self) -> BufferId {
        self.buffer_id
    }

    /// The device that the handle names.
    pub closed spec fn spec_device_id(&self) -> usize {
        self.device_id
    }

    /// The element type that the handle names.
    pub closed spec fn spec_dtype(&self) -> DataType {
        self.dtype
    }

    /// Makes a handle from its parts.
    pub(crate) fn from_parts(buffer_id: BufferId, device_id: usize, view: ViewDescriptor) -> (t:
        Self)
        requires
            view.wf(),
            view.element_count() <= u32::MAX,
        ensures
            t.spec_buffer_id() == buffer_id,
            t.spec_device_id() == device_id,
            t.spec_view() == view,
            t.spec_dtype() == T::spec_dtype(),
    {
        Tensor { buffer_id, device_id, view, dtype: T::dtype(), _marker: PhantomData }
    }

    /// The view descriptor: shape, strides and offset.
    pub fn view(&self) -> (v: &ViewDescriptor)
        ensures
            *v == self.spec_view(),
            v.wf(),
            v.element_count() <= u32::MAX,
    {
        proof {
            use_type_invariant(self);
        }
        &self.view
    }

    /// The buffer that the tensor lives in.
    #[verifier::when_used_as_spec(spec_buffer_id)]
    pub fn buffer_id(&self) -> (id: BufferId)
        ensures
            id == self.spec_buffer_id(),
    {
        self.buffer_id
    }

    /// The index of the device that the tensor lives on.
    #[verifier::when_used_as_spec(spec_device_id)]
    pub fn device_id(&self) -> (d: usize)
        ensures
            d == self.spec_device_id(),
    {
        self.device_id
    }

    /// The element type, which is that of `T`.
    #[verifier::when_used_as_spec(spec_dtype)]
    pub fn dtype(&self) -> (d: DataType)
        ensures
            d == self.spec_dtype(),
            d == T::spec_dtype(),
    {
        proof {
            use_type_invariant(self);
        }
        self.dtype
    }
}

/// Why no tensor could be made.
#[derive(Clone, Copy, Debug, PartialEq, Eq, Structural)]
pub enum TensorError {
    /// The shape has more axes than a view can hold, or an extent or a
    /// row-major stride that does not fit in 32 bits.
    Unrepresentable,
    /// The shape has more elements than a 32-bit index can reach, or
    /// more bytes than the host can count.
    TooLarge,
    /// The memory manager turned the request down.
    Memory { error: MemoryError },
}

/// The number of elements of a shape.
pub open spec fn shape_elements(shape: Seq<usize>) -> int {
    product_from(extents(shape), 0)
}

/// The number of bytes of a tensor of a shape and an element type.
pub open spec fn shape_bytes(shape: Seq<usize>, dtype: DataType) -> int {
    shape_elements(shape) * dtype.byte_size()
}

/// Why a shape is turned down before any memory is asked for, if it is.
pub open spec fn shape_error(shape: Seq<usize>, dtype: DataType) -> Option<TensorError> {
    if !representable(shape) {
        Some(TensorError::Unrepresentable)
    } else if shape_elements(shape) > u32::MAX || shape_bytes(shape, dtype) > usize::MAX {
        Some(TensorError::TooLarge)
    } else {
        None
    }
}

/// Allocating a resident buffer and uploading `image` into it. Where the
/// upload fails, the buffer is released again.
pub open spec fn allocate_and_upload(memory: MemoryModel, size: usize, image: Seq<u8>) -> Outcome<
    MemoryModel,
    Result<BufferId, MemoryError>,
> {
    let allocated = memory.allocate_raw(size);
    match allocated.result {
        Err(e) => allocated,
        Ok(id) => {
            let written = allocated.state.write_to_buffer(id, image);
            match written.result {
                Ok(_) => Outcome {
                    state: written.state,
                    commands: allocated.commands + written.commands,
                    result: Ok(id),
                },
                Err(e) => {
                    let back = written.state.release(id);
                    Outcome {
                        state: back.state,
                        commands: allocated.commands + written.commands + back.commands,
                        result: Err(e),
                    }
                },
            }
        },
    }
}

impl<T: Element> Tensor<T> {
    /// `self` is the handle of a fresh row-major tensor of `shape` in the
    /// buffer `id` on device `device_id`.
    pub open spec fn is_fresh(self, id: BufferId, shape: Seq<usize>, device_id: usize) -> bool {
        &&& self.spec_buffer_id() == id
        &&& self.spec_device_id() == device_id
        &&& self.spec_dtype() == T::spec_dtype()
        &&& self.spec_view().is_contiguous_for(shape)
    }

    /// Checks a shape and gives its row-major view and its size in
    /// bytes.
    fn layout(shape: &[usize]) -> (r: Result<(ViewDescriptor, usize), TensorError>)
        ensures
            match shape_error(shape@, T::spec_dtype()) {
                Some(e) => r == Err::<(ViewDescriptor, usize), TensorError>(e),
                None => r matches Ok(pair) && pair.0.is_contiguous_for(shape@) && pair.0.wf()
                    && pair.0.element_count() <= u32::MAX && pair.1 == shape_bytes(
                    shape@,
                    T::spec_dtype(),
                ),
            },
    {
        let view = match ViewDescriptor::contiguous(shape) {
            Some(view) => view,
            None => {
                return Err(TensorError::Unrepresentable);
            },
        };
        proof {
            lemma_contiguous_dims(view, shape@);
        }
        let count: u32 = match view.total_elems() {
            Some(count) => count,
            None => {
                return Err(TensorError::TooLarge);
            },
        };
        match (count as usize).checked_mul(T::dtype().size_in_bytes()) {
            Some(bytes) => Ok((view, bytes)),
            None => Err(TensorError::TooLarge),
        }
    }

    /// Allocates an uninitialised row-major tensor of `shape`.
    ///
    /// A shape that no view can hold, or that is too large, is turned
    /// down before any memory is asked for. Otherwise the result is that
    /// of the allocation of as many bytes as the shape has.
    pub fn empty(mgr: &mut MemoryManager, ctx: &mut GpuContext, shape: &[usize], device_id: usize) -> (r:
        Result<Self, TensorError>)
        ensures
            match shape_error(shape@, T::spec_dtype()) {
                Some(e) => {
                    &&& r matches Err(x) && x == e
                    &&& final(mgr)@ == old(mgr)@
                    &&& final(ctx)@ == old(ctx)@
                },
                None => {
                    let o = old(mgr)@.allocate_raw(shape_bytes(shape@, T::spec_dtype()) as usize);
                    &&& final(mgr)@ == o.state
                    &&& final(ctx)@ == old(ctx)@ + o.commands
                    &&& match o.result {
                        Ok(id) => r matches Ok(t) && t.is_fresh(id, shape@, device_id),
                        Err(error) => r matches Err(x) && x == (TensorError::Memory { error }),
                    }
                },
            },
            old(mgr)@.wf() ==> final(mgr)@.wf(),
    {
        let (view, bytes) = match Self::layout(shape) {
            Ok(pair) => pair,
            Err(e) => {
                return Err(e);
            },
        };
        match mgr.allocate_raw(ctx, bytes) {
            Ok(id) => Ok(Tensor::from_parts(id, device_id, view)),
            Err(error) => Err(TensorError::Memory { error }),
        }
    }

    /// Allocates a row-major tensor of `shape` and uploads `data` into
    /// it, element after element from the start of the buffer, each as
    /// its four bytes in the given byte order.
    ///
    /// A shape that no view can hold, or that is too large, is turned
    /// down before any memory is asked for. Where the upload fails, the
    /// buffer that was allocated for the tensor is released again.
    pub fn from_vec(
        mgr: &mut MemoryManager,
        ctx: &mut GpuContext,
        data: &[T],
        shape: &[usize],
        device_id: usize,
        little_endian: bool,
    ) -> (r: Result<Self, TensorError>)
        ensures
            match shape_error(shape@, T::spec_dtype()) {
                Some(e) => {
                    &&& r matches Err(x) && x == e
                    &&& final(mgr)@ == old(mgr)@
                    &&& final(ctx)@ == old(ctx)@
                },
                None => {
                    let o = allocate_and_upload(
                        old(mgr)@,
                        shape_bytes(shape@, T::spec_dtype()) as usize,
                        image_of(words_of(data@), little_endian),
                    );
                    &&& final(mgr)@ == o.state
                    &&& final(ctx)@ == old(ctx)@ + o.commands
                    &&& match o.result {
                        Ok(id) => r matches Ok(t) && t.is_fresh(id, shape@, device_id),
                        Err(error) => r matches Err(x) && x == (TensorError::Memory { error }),
                    }
                },
            },
            old(mgr)@.wf() ==> final(mgr)@.wf(),
    {
        let (view, bytes) = match Self::layout(shape) {
            Ok(pair) => pair,
            Err(e) => {
                return Err(e);
            },
        };
        let image = encode(data, little_endian);
        let ghost planned = allocate_and_upload(mgr@, bytes, image@);
        let ghost allocated = mgr@.allocate_raw(bytes);
        let id = match mgr.allocate_raw(ctx, bytes) {
            Ok(id) => id,
            Err(error) => {
                return Err(TensorError::Memory { error });
            },
        };
        let ghost written = allocated.state.write_to_buffer(id, image@);
        match mgr.write_to_buffer(ctx, id, image.as_slice()) {
            Ok(()) => {
                assert(ctx@ == old(ctx)@ + (allocated.commands + written.commands));
                Ok(Tensor::from_parts(id, device_id, view))
            },
            Err(error) => {
                let ghost back = written.state.release(id);
                mgr.release(ctx, id);
                assert(ctx@ == old(ctx)@ + (allocated.commands + written.commands
                    + back.commands));
                Err(TensorError::Memory { error })
            },
        }
    }

    /// Records the download of the tensor's whole buffer. The bytes are
    /// what the recorded read hands to the backend, to be decoded as
    /// elements of `T`; the result is how many bytes there are.
    pub fn to_vec(&self, mgr: &mut MemoryManager, ctx: &mut GpuContext) -> (r: Result<
        usize,
        MemoryError,
    >)
        ensures
            final(mgr)@ == old(mgr)@.download_raw(self.spec_buffer_id()).state,
            final(ctx)@ == old(ctx)@ + old(mgr)@.download_raw(self.spec_buffer_id()).commands,
            r == old(mgr)@.download_raw(self.spec_buffer_id()).result,
            old(mgr)@.wf() ==> final(mgr)@.wf(),
    {
        mgr.download_raw(ctx, self.buffer_id)
    }
}

/// A tensor of any supported element type, by reference.
pub enum TensorAnyRef<'a> {
    F32(&'a Tensor<F32Bits>),
    I32(&'a Tensor<i32>),
    U32(&'a Tensor<u32>),
}

impl<'a> TensorAnyRef<'a> {
    /// The element type, by the variant.
    pub open spec fn spec_dtype(&self) -> DataType {
        match self {
            TensorAnyRef::F32(_) => DataType::F32,
            TensorAnyRef::I32(_) => DataType::I32,
            TensorAnyRef::U32(_) => DataType::U32,
        }
    }

    /// The view descriptor of the tensor referred to.
    pub open spec fn spec_view(&self) -> ViewDescriptor {
        match self {
            TensorAnyRef::F32(t) => t.spec_view(),
            TensorAnyRef::I32(t) => t.spec_view(),
            TensorAnyRef::U32(t) => t.spec_view(),
        }
    }

    /// The buffer of the tensor referred to.
    pub open spec fn spec_buffer_id(&self) -> BufferId {
        match self {
            TensorAnyRef::F32(t) => t.spec_buffer_id(),
            TensorAnyRef::I32(t) => t.spec_buffer_id(),
            TensorAnyRef::U32(t) => t.spec_buffer_id(),
        }
    }

    /// The element type, by the variant.
    #[verifier::when_used_as_spec(spec_dtype)]
    pub fn dtype(&self) -> (d: DataType)
        ensures
            d == self.spec_dtype(),
    {
        match self {
            TensorAnyRef::F32(_) => DataType::F32,
            TensorAnyRef::I32(_) => DataType::I32,
            TensorAnyRef::U32(_) => DataType::U32,
        }
    }

    /// The view descriptor of the tensor referred to.
    pub fn view(&self) -> (v: &ViewDescriptor)
        ensures
            *v == self.spec_view(),
            v.wf(),
            v.element_count() <= u32::MAX,
    {
        match self {
            TensorAnyRef::F32(t) => t.view(),
            TensorAnyRef::I32(t) => t.view(),
            TensorAnyRef::U32(t) => t.view(),
        }
    }

    /// The buffer of the tensor referred to.
    #[verifier::when_used_as_spec(spec_buffer_id)]
    pub fn buffer_id(&self) -> (id: BufferId)
        ensures
            id == self.spec_buffer_id(),
    {
        match self {
            TensorAnyRef::F32(t) => t.buffer_id(),
            TensorAnyRef::I32(t) => t.buffer_id(),
            TensorAnyRef::U32(t) => t.buffer_id(),
        }
    }
}

impl<'a> From<&'a Tensor<F32Bits>> for TensorAnyRef<'a> {
    fn from(t: &'a Tensor<F32Bits>) -> (r: Self) {
        TensorAnyRef::F32(t)
    }
}

impl<'a> vstd::std_specs::convert::FromSpecImpl<&'a Tensor<F32Bits>> for TensorAnyRef<'a> {
    open spec fn obeys_from_spec() -> bool {
        true
    }

    open spec fn from_spec(t: &'a Tensor<F32Bits>) -> Self {
        TensorAnyRef::F32(t)
    }
}

impl<'a> From<&'a Tensor<i32>> for TensorAnyRef<'a> {
    fn from(t: &'a Tensor<i32>) -> (r: Self) {
        TensorAnyRef::I32(t)
    }
}

impl<'a> vstd::std_specs::convert::FromSpecImpl<&'a Tensor<i32>> for TensorAnyRef<'a> {
    open spec fn obeys_from_spec() -> bool {
        true
    }

    open spec fn from_spec(t: &'a Tensor<i32>) -> Self {
        TensorAnyRef::I32(t)
    }
}

impl<'a> From<&'a Tensor<u32>> for TensorAnyRef<'a> {
    fn from(t: &'a Tensor<u32>) -> (r: Self) {
        TensorAnyRef::U32(t)
    }
}

impl<'a> vstd::std_specs::convert::FromSpecImpl<&'a Tensor<u32>> for TensorAnyRef<'a> {
    open spec fn obeys_from_spec() -> bool {
        true
    }

    open spec fn from_spec(t: &'a Tensor<u32>) -> Self {
        TensorAnyRef::U32(t)
    }
}

} // verus!
