//! The built-in elementwise addition with broadcasting.
use vstd::prelude::*;
use crate::bytes::{encode_words, image_of};
use crate::dtype::DataType;
use crate::ops::{
    GpuTask, GpuTaskView, Op, OpSignature, OpSignatureView, ParamBuffer, PreparedOp,
    PreparedOpView, RegistrationInfo,
};
use crate::tensor::TensorAnyRef;
use crate::view::{ViewDescriptor, MAX_DIMS};

verus! {

/// Entry point of the addition kernel.
pub const ADD_ENTRY: &'static str = "add_kernel";

/// Source of the addition kernel. Each work item maps its linear index
/// through the strides of the three views, so an axis with stride zero
/// is read again and again.
pub const ADD_WGSL: &'static str = r#"
const MAX_DIMS : u32 = 8u;

struct View {
  offset  : u32,
  ndim    : u32,
  _pad0   : vec2<u32>,
  shape   : array<u32, MAX_DIMS>,
  strides : array<u32, MAX_DIMS>,
};

struct Meta {
  a           : View,
  b           : View,
  c           : View,
  total_elems : u32,
  _pad1       : vec3<u32>,
};

@group(0) @binding(0) var<storage, read>  A    : array<f32>;
@group(0) @binding(1) var<storage, read>  B    : array<f32>;
@group(0) @binding(2) var<storage, read>  M    : Meta;
@group(0) @binding(3) var<storage, read_write> C    : array<f32>;

fn linear_to_offsets(i: u32, v: View) -> u32 {
  var idx = i;
  var off = v.offset;
  var d: i32 = i32(v.ndim) - 1;
  loop {
    if (d < 0) { break; }
    let du : u32 = u32(d);
    let dim = v.shape[du];
    let coord = idx % dim;
    idx = idx / dim;
    off = off + coord * v.strides[du]; // stride 0 -> broadcast
    d = d - 1;
  }
  return off;
}

@compute @workgroup_size(64)
fn add_kernel(@builtin(global_invocation_id) gid: vec3<u32>) {
  let i = gid.x;
  if (i >= M.total_elems) { return; }

  let ai = linear_to_offsets(i, M.a);
  let bi = linear_to_offsets(i, M.b);
  let ci = linear_to_offsets(i, M.c);

  C[ci] = A[ai] + B[bi];
}
"#;

/// A view as the kernel reads it: the descriptor with two words of
/// padding after `ndim`.
#[derive(Clone, Copy, Debug)]
pub struct ViewU {
    pub offset: u32,
    pub ndim: u32,
    pub _pad0: [u32; 2],
    pub shape: [u32; MAX_DIMS],
    pub strides: [u32; MAX_DIMS],
}

/// The metadata block of one addition: the three views, the number of
/// elements to compute, and padding up to the size the kernel expects.
#[derive(Clone, Copy, Debug)]
pub struct MetaU {
    pub a: ViewU,
    pub b: ViewU,
    pub c: ViewU,
    pub total_elems: u32,
    pub _pad1: [u32; 3],
    pub _tail_pad: [u32; 4],
}

/// Number of words in a `ViewU`.
pub const VIEW_WORDS: usize = 20;

/// Number of words in a `MetaU`.
pub const META_WORDS: usize = 68;

/// The words of a view in the kernel's layout.
pub open spec fn view_words(v: ViewDescriptor) -> Seq<u32> {
    seq![v.offset, v.ndim, 0u32, 0u32] + v.shape@ + v.strides@
}

/// The words of the metadata block of an addition of views `a` and `b`
/// into `c` over `total` elements.
pub open spec fn meta_words(a: ViewDescriptor, b: ViewDescriptor, c: ViewDescriptor, total: u32) -> Seq<
    u32,
> {
    view_words(a) + view_words(b) + view_words(c) + seq![
        total,
        0u32,
        0u32,
        0u32,
        0u32,
        0u32,
        0u32,
        0u32,
    ]
}

/// The descriptor in the kernel's layout.
pub fn descriptor_to_uniform(v: &ViewDescriptor) -> (u: ViewU)
    ensures
        u.words() == view_words(*v),
{
    ViewU { offset: v.offset, ndim: v.ndim, _pad0: [0;2], shape: v.shape, strides: v.strides }
}

impl ViewU {
    /// The words of the structure, field after field.
    pub open spec fn words(self) -> Seq<u32> {
        seq![self.offset, self.ndim] + self._pad0@ + self.shape@ + self.strides@
    }

    /// Appends the words of the structure to `out`.
    pub fn write_words(&self, out: &mut Vec<u32>)
        ensures
            final(out)@ == old(out)@ + self.words(),
    {
        out.push(self.offset);
        out.push(self.ndim);
        out.push(self._pad0[0]);
        out.push(self._pad0[1]);
        let ghost head = out@;
        assert(head == old(out)@ + (seq![self.offset, self.ndim] + self._pad0@));
        let mut i: usize = 0;
        while i < MAX_DIMS
            invariant
                i <= MAX_DIMS,
                out@ == head + self.shape@.take(i as int),
            decreases MAX_DIMS - i,
        {
            out.push(self.shape[i]);
            i += 1;
        }
        assert(self.shape@.take(MAX_DIMS as int) == self.shape@);
        let ghost mid = out@;
        let mut k: usize = 0;
        while k < MAX_DIMS
            invariant
                k <= MAX_DIMS,
                out@ == mid + self.strides@.take(k as int),
            decreases MAX_DIMS - k,
        {
            out.push(self.strides[k]);
            k += 1;
        }
        assert(self.strides@.take(MAX_DIMS as int) == self.strides@);
    }
}

impl MetaU {
    /// The words of the block, field after field.
    pub open spec fn words(self) -> Seq<u32> {
        self.a.words() + self.b.words() + self.c.words() + seq![self.total_elems] + self._pad1@
            + self._tail_pad@
    }

    /// The words of the block, field after field.
    pub fn to_words(&self) -> (out: Vec<u32>)
        ensures
            out@ == self.words(),
    {
        let mut out: Vec<u32> = Vec::new();
        self.a.write_words(&mut out);
        self.b.write_words(&mut out);
        self.c.write_words(&mut out);
        out.push(self.total_elems);
        out.push(self._pad1[0]);
        out.push(self._pad1[1]);
        out.push(self._pad1[2]);
        out.push(self._tail_pad[0]);
        out.push(self._tail_pad[1]);
        out.push(self._tail_pad[2]);
        out.push(self._tail_pad[3]);
        assert(out@ == self.words());
        out
    }
}

/// The signature of the addition: two inputs and one output, each of
/// 32-bit floats.
pub open spec fn add_signature() -> OpSignatureView {
    OpSignatureView {
        name: "add"@,
        num_inputs: 2,
        num_outputs: 1,
        input_dtypes: seq![seq![DataType::F32], seq![DataType::F32]],
        output_dtypes: seq![seq![DataType::F32]],
    }
}

/// `task` is the one dispatch that adds `a` and `b` into `c`: the
/// addition kernel on the three buffers and views, with one parameter
/// blob that holds the metadata block in the given byte order.
pub open spec fn is_add_task(
    task: GpuTaskView,
    a: TensorAnyRef<'_>,
    b: TensorAnyRef<'_>,
    c: TensorAnyRef<'_>,
    little_endian: bool,
) -> bool {
    &&& task.pipeline_source == ADD_WGSL@
    &&& task.entry_point == ADD_ENTRY@
    &&& task.input_descs == seq![a.spec_view(), b.spec_view()]
    &&& task.output_descs == seq![c.spec_view()]
    &&& task.input_types == seq![a.spec_dtype(), b.spec_dtype()]
    &&& task.output_types == seq![c.spec_dtype()]
    &&& task.input_ids == seq![a.spec_buffer_id(), b.spec_buffer_id()]
    &&& task.output_ids == seq![c.spec_buffer_id()]
    &&& task.params.len() == 1
    &&& task.params[0] == image_of(
        meta_words(
            a.spec_view(),
            b.spec_view(),
            c.spec_view(),
            c.spec_view().element_count() as u32,
        ),
        little_endian,
    )
}

/// Elementwise addition of two tensors of 32-bit floats into a third.
/// The operation knows the byte order of the machine, in which it hands
/// its metadata to the kernel.
pub struct AddOp {
    sig: OpSignature,
    little_endian: bool,
}

impl RegistrationInfo for AddOp {
    const NAME: &'static str = "add";
}

impl AddOp {
    /// The name under which the addition registers.
    pub fn name() -> (name: &'static str)
        ensures
            name@ == "add"@,
    {
        Self::NAME
    }

    /// What holds of every addition: it carries the signature of the
    /// addition.
    #[verifier::type_invariant]
    pub closed spec fn inv(self) -> bool {
        self.sig@ == add_signature()
    }

    /// Whether the operation writes words least significant byte first.
    pub closed spec fn byte_order(&self) -> bool {
        self.little_endian
    }

    /// The addition on a machine of the given byte order. It publishes
    /// the signature of the addition.
    pub fn new(little_endian: bool) -> (op: Self)
        ensures
            op.sig() == add_signature(),
            op.byte_order() == little_endian,
    {
        let dt = DataType::F32;
        let sig = OpSignature {
            name: "add",
            num_inputs: 2,
            num_outputs: 1,
            input_dtypes: vec![vec![dt], vec![dt]],
            output_dtypes: vec![vec![dt]],
        };
        proof {
            assert(sig@.input_dtypes =~= add_signature().input_dtypes) by {
                assert(sig.input_dtypes@[0]@ =~= seq![DataType::F32]);
                assert(sig.input_dtypes@[1]@ =~= seq![DataType::F32]);
            }
            assert(sig@.output_dtypes =~= add_signature().output_dtypes) by {
                assert(sig.output_dtypes@[0]@ =~= seq![DataType::F32]);
            }
        }
        AddOp { sig, little_endian }
    }
}

impl Op for AddOp {
    closed spec fn sig(&self) -> OpSignatureView {
        self.sig@
    }

    open spec fn prepares(
        &self,
        inputs: Seq<TensorAnyRef<'_>>,
        outputs: Seq<TensorAnyRef<'_>>,
        work: PreparedOpView,
    ) -> bool {
        &&& inputs.len() == 2
        &&& outputs.len() == 1
        &&& work matches PreparedOpView::Gpu(task)
        &&& is_add_task(task, inputs[0], inputs[1], outputs[0], self.byte_order())
    }

    fn signature(&self) -> (s: &OpSignature)
        ensures
            s@ == add_signature(),
    {
        proof {
            use_type_invariant(self);
        }
        &self.sig
    }

    fn prepare(&self, inputs: &[TensorAnyRef<'_>], outputs: &[TensorAnyRef<'_>]) -> (p: PreparedOp)
    {
        proof {
            use_type_invariant(self);
        }
        let a = &inputs[0];
        let b = &inputs[1];
        let c = &outputs[0];
        let total: u32 = c.view().total_elems().unwrap();
        let meta = MetaU {
            a: descriptor_to_uniform(a.view()),
            b: descriptor_to_uniform(b.view()),
            c: descriptor_to_uniform(c.view()),
            total_elems: total,
            _pad1: [0;3],
            _tail_pad: [0;4],
        };
        let words = meta.to_words();
        assert(words@ =~= meta_words(a.spec_view(), b.spec_view(), c.spec_view(), total));
        let param = ParamBuffer { bytes: encode_words(words.as_slice(), self.little_endian) };
        let (src, entry) = self.shader_template();
        let task = GpuTask {
            pipeline_source: src.to_string(),
            entry_point: entry.to_string(),
            input_descs: vec![*a.view(), *b.view()],
            output_descs: vec![*c.view()],
            input_types: vec![a.dtype(), b.dtype()],
            output_types: vec![c.dtype()],
            input_ids: vec![a.buffer_id(), b.buffer_id()],
            output_ids: vec![c.buffer_id()],
            params: vec![param],
        };
        proof {
            assert(task@.input_descs =~= seq![a.spec_view(), b.spec_view()]);
            assert(task@.output_descs =~= seq![c.spec_view()]);
            assert(task@.input_types =~= seq![a.spec_dtype(), b.spec_dtype()]);
            assert(task@.output_types =~= seq![c.spec_dtype()]);
            assert(task@.input_ids =~= seq![a.spec_buffer_id(), b.spec_buffer_id()]);
            assert(task@.output_ids =~= seq![c.spec_buffer_id()]);
            assert(task@.params.len() == 1);
            assert(task@.params[0] == param.bytes@);
        }
        PreparedOp::Gpu(task)
    }

    fn shader_template(&self) -> (r: (&'static str, &'static str))
        ensures
            r.0@ == ADD_WGSL@,
            r.1@ == ADD_ENTRY@,
    {
        (ADD_WGSL, ADD_ENTRY)
    }
}

} // verus!
