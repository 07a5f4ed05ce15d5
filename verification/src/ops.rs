//! What an operation publishes, what it prepares, and how a call is
//! checked against its signature.
use vstd::prelude::*;
use crate::dtype::DataType;
use crate::tensor::TensorAnyRef;
use crate::view::{BufferId, ViewDescriptor};

verus! {

/// The static contract of an operation: its name, how many tensors it
/// takes and gives, and for each slot the element types it allows.
#[derive(Debug, Clone)]
pub struct OpSignature {
    pub name: &'static str,
    pub num_inputs: usize,
    pub num_outputs: usize,
    pub input_dtypes: Vec<Vec<DataType>>,
    pub output_dtypes: Vec<Vec<DataType>>,
}

/// An `OpSignature` as mathematical values.
pub struct OpSignatureView {
    pub name: Seq<char>,
    pub num_inputs: nat,
    pub num_outputs: nat,
    pub input_dtypes: Seq<Seq<DataType>>,
    pub output_dtypes: Seq<Seq<DataType>>,
}

/// A list of allowed-type lists as sequences.
pub open spec fn allowed_sets(lists: Seq<Vec<DataType>>) -> Seq<Seq<DataType>> {
    Seq::new(lists.len(), |i: int| lists[i]@)
}

impl View for OpSignature {
    type V = OpSignatureView;

    open spec fn view(&self) -> OpSignatureView {
        OpSignatureView {
            name: self.name@,
            num_inputs: self.num_inputs as nat,
            num_outputs: self.num_outputs as nat,
            input_dtypes: allowed_sets(self.input_dtypes@),
            output_dtypes: allowed_sets(self.output_dtypes@),
        }
    }
}

/// A small host-side blob that is uploaded right before a dispatch and
/// released right after it.
#[derive(Debug, Clone)]
pub struct ParamBuffer {
    pub bytes: Vec<u8>,
}

/// One dispatch, fully described: the shader and its entry point, the
/// views, element types and buffers of its inputs and outputs, and its
/// parameter blobs.
#[derive(Debug, Clone)]
pub struct GpuTask {
    pub pipeline_source: String,
    pub entry_point: String,
    pub input_descs: Vec<ViewDescriptor>,
    pub output_descs: Vec<ViewDescriptor>,
    pub input_types: Vec<DataType>,
    pub output_types: Vec<DataType>,
    pub input_ids: Vec<BufferId>,
    pub output_ids: Vec<BufferId>,
    pub params: Vec<ParamBuffer>,
}

/// A `GpuTask` as mathematical values.
pub struct GpuTaskView {
    pub pipeline_source: Seq<char>,
    pub entry_point: Seq<char>,
    pub input_descs: Seq<ViewDescriptor>,
    pub output_descs: Seq<ViewDescriptor>,
    pub input_types: Seq<DataType>,
    pub output_types: Seq<DataType>,
    pub input_ids: Seq<BufferId>,
    pub output_ids: Seq<BufferId>,
    pub params: Seq<Seq<u8>>,
}

/// The contents of a list of parameter blobs.
pub open spec fn param_bytes(params: Seq<ParamBuffer>) -> Seq<Seq<u8>> {
    Seq::new(params.len(), |i: int| params[i].bytes@)
}

impl View for GpuTask {
    type V = GpuTaskView;

    open spec fn view(&self) -> GpuTaskView {
        GpuTaskView {
            pipeline_source: self.pipeline_source@,
            entry_point: self.entry_point@,
            input_descs: self.input_descs@,
            output_descs: self.output_descs@,
            input_types: self.input_types@,
            output_types: self.output_types@,
            input_ids: self.input_ids@,
            output_ids: self.output_ids@,
            params: param_bytes(self.params@),
        }
    }
}

/// What preparing an operation yields: one dispatch, or an ordered list
/// of prepared operations that run one after the other.
#[derive(Debug)]
pub enum PreparedOp {
    Gpu(GpuTask),
    Composite(Vec<PreparedOp>),
}

/// A `PreparedOp` as mathematical values.
pub enum PreparedOpView {
    Gpu(GpuTaskView),
    Composite(Seq<PreparedOpView>),
}

impl View for PreparedOp {
    type V = PreparedOpView;

    open spec fn view(&self) -> PreparedOpView
        decreases self,
    {
        match self {
            PreparedOp::Gpu(task) => PreparedOpView::Gpu(task@),
            PreparedOp::Composite(ops) => PreparedOpView::Composite(
                Seq::new(
                    ops@.len(),
                    |i: int|
                        if 0 <= i < ops@.len() {
                            ops@[i].view()
                        } else {
                            PreparedOpView::Composite(Seq::empty())
                        },
                ),
            ),
        }
    }
}

/// Why a call was turned down before anything was prepared.
#[derive(Debug)]
#[allow(inconsistent_fields)]
pub enum OpError {
    /// No operation is registered under the name.
    UnknownOp(String),
    /// The number of inputs, or of outputs, is not the declared one.
    ArityMismatch { op: String, expected: usize, found: usize },
    /// The element type found at slot `index` is not among `expected`.
    DtypeMismatch { op: String, index: usize, expected: Vec<DataType>, found: DataType },
}

/// An `OpError` as mathematical values.
#[allow(inconsistent_fields)]
pub enum OpErrorView {
    UnknownOp(Seq<char>),
    ArityMismatch { op: Seq<char>, expected: nat, found: nat },
    DtypeMismatch { op: Seq<char>, index: nat, expected: Seq<DataType>, found: DataType },
}

impl View for OpError {
    type V = OpErrorView;

    open spec fn view(&self) -> OpErrorView {
        match self {
            OpError::UnknownOp(name) => OpErrorView::UnknownOp(name@),
            OpError::ArityMismatch { op, expected, found } => OpErrorView::ArityMismatch {
                op: op@,
                expected: *expected as nat,
                found: *found as nat,
            },
            OpError::DtypeMismatch { op, index, expected, found } => OpErrorView::DtypeMismatch {
                op: op@,
                index: *index as nat,
                expected: expected@,
                found: *found,
            },
        }
    }
}

/// The name under which an operation type registers itself.
pub trait RegistrationInfo {
    /// Unique name of the operation.
    const NAME: &'static str;
}

/// The element types of a list of tensors, slot by slot.
pub open spec fn dtypes_of(tensors: Seq<TensorAnyRef<'_>>) -> Seq<DataType> {
    Seq::new(tensors.len(), |i: int| tensors[i].spec_dtype())
}

/// The types allowed at slot `slot`; none where the signature declares no
/// set for the slot.
pub open spec fn allowed_at(allowed: Seq<Seq<DataType>>, slot: int) -> Seq<DataType> {
    if 0 <= slot < allowed.len() {
        allowed[slot]
    } else {
        Seq::empty()
    }
}

/// The first slot at or after `from` whose element type is not allowed.
pub open spec fn first_mismatch(
    allowed: Seq<Seq<DataType>>,
    found: Seq<DataType>,
    from: int,
) -> Option<int>
    decreases found.len() - from,
{
    if from < 0 || from >= found.len() {
        None
    } else if !allowed_at(allowed, from).contains(found[from]) {
        Some(from)
    } else {
        first_mismatch(allowed, found, from + 1)
    }
}

/// The verdict on a call: the error it is turned down with, or none.
/// Both arities are checked before any element type; the inputs' types
/// before the outputs'.
pub open spec fn check_signature(
    sig: OpSignatureView,
    op: Seq<char>,
    inputs: Seq<DataType>,
    outputs: Seq<DataType>,
) -> Option<OpErrorView> {
    if inputs.len() != sig.num_inputs {
        Some(OpErrorView::ArityMismatch { op, expected: sig.num_inputs, found: inputs.len() })
    } else if outputs.len() != sig.num_outputs {
        Some(OpErrorView::ArityMismatch { op, expected: sig.num_outputs, found: outputs.len() })
    } else {
        match first_mismatch(sig.input_dtypes, inputs, 0) {
            Some(i) => Some(
                OpErrorView::DtypeMismatch {
                    op,
                    index: i as nat,
                    expected: allowed_at(sig.input_dtypes, i),
                    found: inputs[i],
                },
            ),
            None => match first_mismatch(sig.output_dtypes, outputs, 0) {
                Some(i) => Some(
                    OpErrorView::DtypeMismatch {
                        op,
                        index: i as nat,
                        expected: allowed_at(sig.output_dtypes, i),
                        found: outputs[i],
                    },
                ),
                None => None,
            },
        }
    }
}

/// The call has the declared arity and an allowed element type at every
/// slot.
pub open spec fn accepts(sig: OpSignatureView, inputs: Seq<DataType>, outputs: Seq<DataType>) -> bool {
    &&& inputs.len() == sig.num_inputs
    &&& outputs.len() == sig.num_outputs
    &&& forall|i: int|
        0 <= i < inputs.len() ==> allowed_at(sig.input_dtypes, i).contains(#[trigger] inputs[i])
    &&& forall|i: int|
        0 <= i < outputs.len() ==> allowed_at(sig.output_dtypes, i).contains(
            #[trigger] outputs[i],
        )
}

/// An operation: a signature, and a pure description of the work for
/// validated tensors.
///
/// `sig` and `prepares` are ghost: they say in contracts what the two
/// executable methods return. An implementation that is not verified
/// gives them a body that is never run.
pub trait Op: Send + Sync {
    /// The signature that `signature` returns.
    spec fn sig(&self) -> OpSignatureView;

    /// `work` is what `prepare` may describe for the given tensors.
    spec fn prepares(
        &self,
        inputs: Seq<TensorAnyRef<'_>>,
        outputs: Seq<TensorAnyRef<'_>>,
        work: PreparedOpView,
    ) -> bool;

    /// The full signature.
    fn signature(&self) -> (s: &OpSignature)
        ensures
            s@ == self.sig(),
    ;

    /// Describes the work for tensors that the signature accepts. It
    /// touches no device.
    fn prepare(&self, inputs: &[TensorAnyRef<'_>], outputs: &[TensorAnyRef<'_>]) -> (p: PreparedOp)
        requires
            accepts(self.sig(), dtypes_of(inputs@), dtypes_of(outputs@)),
        ensures
            self.prepares(inputs@, outputs@, p@),
    ;

    /// For a single-kernel operation, the shader source and its entry
    /// point.
    fn shader_template(&self) -> (&'static str, &'static str);
}

/// `first_mismatch` finds the least slot that is not allowed, and finds
/// none exactly where every slot is allowed.
pub proof fn lemma_first_mismatch(allowed: Seq<Seq<DataType>>, found: Seq<DataType>, from: int)
    requires
        0 <= from,
    ensures
        match first_mismatch(allowed, found, from) {
            Some(i) => {
                &&& from <= i < found.len()
                &&& !allowed_at(allowed, i).contains(found[i])
                &&& forall|j: int| from <= j < i ==> allowed_at(allowed, j).contains(#[trigger] found[j])
            },
            None => forall|j: int|
                from <= j < found.len() ==> allowed_at(allowed, j).contains(#[trigger] found[j]),
        },
    decreases found.len() - from,
{
    if from < found.len() && allowed_at(allowed, from).contains(found[from]) {
        lemma_first_mismatch(allowed, found, from + 1);
    }
}

/// A call passes the check exactly where the signature accepts it.
pub proof fn lemma_check_accepts(
    sig: OpSignatureView,
    op: Seq<char>,
    inputs: Seq<DataType>,
    outputs: Seq<DataType>,
)
    ensures
        check_signature(sig, op, inputs, outputs) is None <==> accepts(sig, inputs, outputs),
{
    lemma_first_mismatch(sig.input_dtypes, inputs, 0);
    lemma_first_mismatch(sig.output_dtypes, outputs, 0);
}

/// A wrong number of inputs or outputs is reported as such, whatever the
/// element types are.
pub proof fn lemma_arity_before_dtype(
    sig: OpSignatureView,
    op: Seq<char>,
    inputs: Seq<DataType>,
    outputs: Seq<DataType>,
)
    requires
        inputs.len() != sig.num_inputs || outputs.len() != sig.num_outputs,
    ensures
        check_signature(sig, op, inputs, outputs) is Some,
        check_signature(sig, op, inputs, outputs)->0 is ArityMismatch,
{
}

/// With the right arity, a call whose first disallowed input is at slot
/// `slot` is reported as a type mismatch at exactly that slot, with the
/// type found there.
pub proof fn lemma_dtype_mismatch_index(
    sig: OpSignatureView,
    op: Seq<char>,
    inputs: Seq<DataType>,
    outputs: Seq<DataType>,
    slot: int,
)
    requires
        inputs.len() == sig.num_inputs,
        outputs.len() == sig.num_outputs,
        0 <= slot < inputs.len(),
        !allowed_at(sig.input_dtypes, slot).contains(inputs[slot]),
        forall|j: int| 0 <= j < slot ==> allowed_at(sig.input_dtypes, j).contains(#[trigger] inputs[j]),
    ensures
        check_signature(sig, op, inputs, outputs) == Some(
            OpErrorView::DtypeMismatch {
                op,
                index: slot as nat,
                expected: allowed_at(sig.input_dtypes, slot),
                found: inputs[slot],
            },
        ),
{
    lemma_first_mismatch(sig.input_dtypes, inputs, 0);
    let found_at = first_mismatch(sig.input_dtypes, inputs, 0);
    assert(found_at is Some);
    let i = found_at->0;
    if i < slot {
        assert(allowed_at(sig.input_dtypes, i).contains(inputs[i]));
    }
    if slot < i {
        assert(allowed_at(sig.input_dtypes, slot).contains(inputs[slot]));
    }
}

/// Tells whether `d` is in `list`.
pub fn dtype_in(list: &Vec<DataType>, d: DataType) -> (found: bool)
    ensures
        found == list@.contains(d),
{
    let mut i: usize = 0;
    while i < list.len()
        invariant
            i <= list@.len(),
            forall|j: int| 0 <= j < i ==> list@[j] != d,
        decreases list@.len() - i,
    {
        if list[i] == d {
            return true;
        }
        i += 1;
    }
    false
}

pub(crate) fn copy_dtypes(list: &Vec<DataType>) -> (copy: Vec<DataType>)
    ensures
        copy@ == list@,
{
    let mut copy: Vec<DataType> = Vec::new();
    let mut i: usize = 0;
    while i < list.len()
        invariant
            i <= list@.len(),
            copy@ == list@.take(i as int),
        decreases list@.len() - i,
    {
        copy.push(list[i]);
        i += 1;
    }
    copy
}

/// Finds the first slot of `found` whose type the matching list of
/// `allowed` does not hold.
fn find_mismatch(allowed: &Vec<Vec<DataType>>, found: &[DataType]) -> (slot: Option<usize>)
    ensures
        match first_mismatch(allowed_sets(allowed@), found@, 0) {
            Some(i) => slot == Some(i as usize) && 0 <= i < found@.len(),
            None => slot is None,
        },
{
    let ghost sets = allowed_sets(allowed@);
    let mut i: usize = 0;
    while i < found.len()
        invariant
            i <= found@.len(),
            sets == allowed_sets(allowed@),
            first_mismatch(sets, found@, 0) == first_mismatch(sets, found@, i as int),
        decreases found@.len() - i,
    {
        let ok = if i < allowed.len() {
            dtype_in(&allowed[i], found[i])
        } else {
            false
        };
        assert(ok == allowed_at(sets, i as int).contains(found@[i as int]));
        if !ok {
            return Some(i);
        }
        i += 1;
    }
    None
}

/// Checks a call against a signature: the number of inputs, then the
/// number of outputs, then the element type of each input, then of each
/// output. `name` is the name the operation was asked for by.
pub fn validate(sig: &OpSignature, name: &str, inputs: &[DataType], outputs: &[DataType]) -> (r:
    Result<(), OpError>)
    ensures
        match check_signature(sig@, name@, inputs@, outputs@) {
            Some(e) => r matches Err(x) && x@ == e,
            None => r is Ok,
        },
        r is Ok <==> accepts(sig@, inputs@, outputs@),
{
    proof {
        lemma_check_accepts(sig@, name@, inputs@, outputs@);
    }
    if inputs.len() != sig.num_inputs {
        return Err(
            OpError::ArityMismatch {
                op: name.to_string(),
                expected: sig.num_inputs,
                found: inputs.len(),
            },
        );
    }
    if outputs.len() != sig.num_outputs {
        return Err(
            OpError::ArityMismatch {
                op: name.to_string(),
                expected: sig.num_outputs,
                found: outputs.len(),
            },
        );
    }
    match find_mismatch(&sig.input_dtypes, inputs) {
        Some(i) => {
            let expected = if i < sig.input_dtypes.len() {
                copy_dtypes(&sig.input_dtypes[i])
            } else {
                Vec::new()
            };
            return Err(
                OpError::DtypeMismatch { op: name.to_string(), index: i, expected, found: inputs[i] },
            );
        },
        None => {},
    }
    match find_mismatch(&sig.output_dtypes, outputs) {
        Some(i) => {
            let expected = if i < sig.output_dtypes.len() {
                copy_dtypes(&sig.output_dtypes[i])
            } else {
                Vec::new()
            };
            return Err(
                OpError::DtypeMismatch {
                    op: name.to_string(),
                    index: i,
                    expected,
                    found: outputs[i],
                },
            );
        },
        None => {},
    }
    Ok(())
}

} // verus!
